//! Searching the library from the desktop: drafts, background requests and
//! what is shown of their results.

use vstd::prelude::*;

use crate::gui::search_text::{hit_preview, search_preview};
use crate::library_search::{
    ArticleTarget, LibrarySearchResult, PrimaryIdentity, ResultType, SearchHistoryEntry,
    SearchOrigin, SearchOutcome, SearchRequest, SearchScope,
};
use crate::number::{decimal, decimal_i64, decimal_usize, signed};
use crate::text::{chars_of, is_blank, text_opt, trim, trimmed};

verus! {

/// How many results a search on the desktop asks for.
pub const RESULT_LIMIT: usize = 50;

/// How long the preview of a result is at most, in characters.
pub const PREVIEW_CHARS: usize = 180;

/// The search modal.
#[derive(Debug)]
pub struct SearchDialog {
    pub query: String,
    pub searched_query: String,
    pub results: Vec<LibrarySearchResult>,
    pub error: Option<String>,
    pub focus_input: bool,
    pub history: Vec<SearchHistoryEntry>,
    pub searching: bool,
    pub active_request: Option<u64>,
}

pub ghost struct DialogView {
    pub query: Seq<char>,
    pub searched_query: Seq<char>,
    pub results: Seq<LibrarySearchResult>,
    pub error: Option<Seq<char>>,
    pub focus_input: bool,
    pub history: Seq<SearchHistoryEntry>,
    pub searching: bool,
    pub active_request: Option<u64>,
}

impl View for SearchDialog {
    type V = DialogView;

    open spec fn view(&self) -> DialogView {
        DialogView {
            query: self.query@,
            searched_query: self.searched_query@,
            results: self.results@,
            error: text_opt(self.error),
            focus_input: self.focus_input,
            history: self.history@,
            searching: self.searching,
            active_request: self.active_request,
        }
    }
}

#[derive(Debug, Clone, Copy, PartialEq, Eq, Structural)]
pub enum SearchTarget {
    Modal,
    ResourceRoute,
}

/// The result of a background search.
#[derive(Debug)]
pub struct SearchEvent {
    pub request_id: u64,
    pub target: SearchTarget,
    pub result: Result<SearchOutcome, String>,
}

/// The searches of the desktop.
#[derive(Debug)]
pub struct SearchFeature {
    pub request_generation: u64,
    pub resource_query: String,
    pub resource_results: Vec<LibrarySearchResult>,
    pub resource_searching: bool,
    pub resource_request: Option<u64>,
    pub resource_error: Option<String>,
}

pub ghost struct FeatureView {
    pub request_generation: u64,
    pub resource_query: Seq<char>,
    pub resource_results: Seq<LibrarySearchResult>,
    pub resource_searching: bool,
    pub resource_request: Option<u64>,
    pub resource_error: Option<Seq<char>>,
}

impl View for SearchFeature {
    type V = FeatureView;

    open spec fn view(&self) -> FeatureView {
        FeatureView {
            request_generation: self.request_generation,
            resource_query: self.resource_query@,
            resource_results: self.resource_results@,
            resource_searching: self.resource_searching,
            resource_request: self.resource_request,
            resource_error: text_opt(self.resource_error),
        }
    }
}

/// The number of the next request.
pub open spec fn next_generation(generation: u64) -> u64 {
    if generation == u64::MAX {
        0
    } else {
        (generation + 1) as u64
    }
}

/// A background result is taken only by the request that still waits for it.
pub open spec fn awaits(active_request: Option<u64>, incoming: u64) -> bool {
    active_request == Some(incoming)
}

pub fn accepts_search_response(active_request: Option<u64>, incoming_request: u64) -> (r: bool)
    ensures
        r == awaits(active_request, incoming_request),
{
    match active_request {
        Some(id) => id == incoming_request,
        None => false,
    }
}

/// What a search on the desktop asks for.
pub open spec fn asks_for(request: SearchRequest, query: Seq<char>) -> bool {
    request.query@ == query && request.scope is Curated && request.result_type is All
        && request.origin is Human && request.limit == RESULT_LIMIT
}

fn desktop_request(query: String) -> (r: SearchRequest)
    ensures
        asks_for(r, query@),
{
    SearchRequest {
        query,
        scope: SearchScope::Curated,
        result_type: ResultType::All,
        origin: SearchOrigin::Human,
        limit: RESULT_LIMIT,
    }
}

/// The dialog after a search that was submitted with this request number.
pub open spec fn searching_dialog(d: DialogView, request: u64) -> DialogView {
    DialogView {
        searched_query: trim(d.query),
        error: None,
        results: Seq::empty(),
        searching: true,
        active_request: Some(request),
        ..d
    }
}

/// The dialog after an empty search.
pub open spec fn cleared_dialog(d: DialogView) -> DialogView {
    DialogView {
        searched_query: Seq::empty(),
        error: None,
        results: Seq::empty(),
        searching: false,
        active_request: None,
        ..d
    }
}

/// The dialog after the result that it waited for.
pub open spec fn answered_dialog(
    d: DialogView,
    result: Result<SearchOutcome, String>,
    history: Seq<SearchHistoryEntry>,
) -> DialogView {
    let done = DialogView { searching: false, active_request: None, ..d };
    match result {
        Ok(outcome) => DialogView { results: outcome.results@, history, ..done },
        Err(error) => DialogView { results: Seq::empty(), error: Some(error@), ..done },
    }
}

/// The search of the resource page after a new query.
pub open spec fn searching_resources(f: FeatureView) -> FeatureView {
    let request = next_generation(f.request_generation);
    FeatureView {
        request_generation: request,
        resource_results: Seq::empty(),
        resource_error: None,
        resource_searching: true,
        resource_request: Some(request),
        ..f
    }
}

/// The search of the resource page after the result that it waited for.
pub open spec fn answered_resources(f: FeatureView, result: Result<SearchOutcome, String>) -> FeatureView {
    let done = FeatureView { resource_searching: false, resource_request: None, ..f };
    match result {
        Ok(outcome) => FeatureView {
            resource_results: outcome.results@,
            resource_error: None,
            ..done
        },
        Err(error) => FeatureView {
            resource_results: Seq::empty(),
            resource_error: Some(error@),
            ..done
        },
    }
}

impl SearchFeature {
    pub fn new() -> (r: SearchFeature)
        ensures
            r@ == (FeatureView {
                request_generation: 0,
                resource_query: Seq::empty(),
                resource_results: Seq::empty(),
                resource_searching: false,
                resource_request: None,
                resource_error: None,
            }),
    {
        SearchFeature {
            request_generation: 0,
            resource_query: String::new(),
            resource_results: Vec::new(),
            resource_searching: false,
            resource_request: None,
            resource_error: None,
        }
    }

    pub fn new_dialog(&self, history: Vec<SearchHistoryEntry>) -> (r: SearchDialog)
        ensures
            r@ == (DialogView {
                query: Seq::empty(),
                searched_query: Seq::empty(),
                results: Seq::empty(),
                error: None,
                focus_input: false,
                history: history@,
                searching: false,
                active_request: None,
            }),
    {
        SearchDialog {
            query: String::new(),
            searched_query: String::new(),
            results: Vec::new(),
            error: None,
            focus_input: false,
            history,
            searching: false,
            active_request: None,
        }
    }

    fn next_request(&mut self) -> (r: u64)
        ensures
            r == next_generation(old(self)@.request_generation),
            final(self)@ == (FeatureView { request_generation: r, ..old(self)@ }),
    {
        self.request_generation = self.request_generation.wrapping_add(1);
        self.request_generation
    }

    /// Begins a search of the resource page. An empty query begins none.
    pub fn start_resource_search(&mut self, query: String) -> (r: Option<(u64, SearchRequest)>)
        ensures
            match r {
                Some((id, request)) => query@.len() > 0 && final(self)@ == searching_resources(
                    old(self)@,
                ) && final(self)@.resource_request == Some(id) && asks_for(request, query@),
                None => query@.len() == 0 && final(self)@ == old(self)@,
            },
    {
        if chars_of(&query).len() == 0 {
            return None;
        }
        let id = self.next_request();
        self.resource_results = Vec::new();
        self.resource_error = None;
        self.resource_searching = true;
        self.resource_request = Some(id);
        Some((id, desktop_request(query)))
    }

    /// Begins the search that the dialog's query asks for. A blank query only
    /// clears the dialog.
    pub fn run_modal_search(&mut self, dialog: &mut SearchDialog) -> (r: Option<(u64, SearchRequest)>)
        ensures
            match r {
                Some((id, request)) => {
                    &&& trim(old(dialog)@.query).len() > 0
                    &&& id == next_generation(old(self)@.request_generation)
                    &&& final(self)@ == (FeatureView { request_generation: id, ..old(self)@ })
                    &&& final(dialog)@ == searching_dialog(old(dialog)@, id)
                    &&& asks_for(request, trim(old(dialog)@.query))
                },
                None => {
                    &&& trim(old(dialog)@.query).len() == 0
                    &&& final(self)@ == old(self)@
                    &&& final(dialog)@ == cleared_dialog(old(dialog)@)
                },
            },
    {
        let query = trimmed(&dialog.query);
        if chars_of(&query).len() == 0 {
            dialog.searched_query = String::new();
            dialog.error = None;
            dialog.results = Vec::new();
            dialog.searching = false;
            dialog.active_request = None;
            return None;
        }
        let id = self.next_request();
        dialog.searched_query = query.clone();
        dialog.error = None;
        dialog.results = Vec::new();
        dialog.searching = true;
        dialog.active_request = Some(id);
        Some((id, desktop_request(query)))
    }

    /// Takes in the result of a search of the resource page, unless another
    /// search began meanwhile.
    pub fn resource_answered(&mut self, request_id: u64, result: Result<SearchOutcome, String>)
        ensures
            final(self)@ == (if awaits(old(self)@.resource_request, request_id) {
                answered_resources(old(self)@, result)
            } else {
                old(self)@
            }),
            old(self).resource_request == Some(request_id) ==> !final(self).resource_searching
                && final(self).resource_request is None,
            old(self).resource_request == Some(request_id) ==> (result matches Ok(outcome)
                ==> final(self).resource_results@ == outcome.results@ && final(self).resource_error is None),
            old(self).resource_request == Some(request_id) ==> (result matches Err(error)
                ==> final(self).resource_results@.len() == 0 && text_opt(
                final(self).resource_error,
            ) == Some(error@)),
            old(self).resource_request != Some(request_id) ==> *final(self) == *old(self),
    {
        if !accepts_search_response(self.resource_request, request_id) {
            return ;
        }
        self.resource_searching = false;
        self.resource_request = None;
        match result {
            Ok(outcome) => {
                self.resource_results = outcome.results;
                self.resource_error = None;
            },
            Err(error) => {
                self.resource_results = Vec::new();
                self.resource_error = Some(error);
            },
        }
    }
}

pub open spec fn unrecorded() -> Seq<char> {
    "搜索完成，但搜索历史没有保存"@
}

/// Takes in the result of a search from the modal, unless another search began
/// meanwhile, and gives back what to tell the reader. `history` are the recent
/// queries after a search that succeeded.
pub fn modal_answered(
    dialog: &mut SearchDialog,
    request_id: u64,
    result: Result<SearchOutcome, String>,
    history: Vec<SearchHistoryEntry>,
) -> (r: Option<&'static str>)
    ensures
        ({
            let accepted = awaits(old(dialog)@.active_request, request_id);
            &&& final(dialog)@ == (if accepted {
                answered_dialog(old(dialog)@, result, history@)
            } else {
                old(dialog)@
            })
            &&& match r {
                Some(text) => accepted && (result matches Ok(outcome) && outcome.warnings@.len()
                    > 0) && text@ == unrecorded(),
                None => !(accepted && (result matches Ok(outcome) && outcome.warnings@.len() > 0)),
            }
        }),
        old(dialog).active_request == Some(request_id) ==> !final(dialog).searching && final(dialog).active_request is None,
        old(dialog).active_request == Some(request_id) ==> (result matches Ok(outcome) ==> final(dialog).results@ == outcome.results@ && final(dialog).history@ == history@),
        old(dialog).active_request == Some(request_id) ==> (result matches Err(error) ==> final(dialog).results@.len() == 0 && text_opt(final(dialog).error) == Some(error@)),
        old(dialog).active_request != Some(request_id) ==> r is None && *final(dialog) == *old(dialog),
{
    if !accepts_search_response(dialog.active_request, request_id) {
        return None;
    }
    dialog.searching = false;
    dialog.active_request = None;
    match result {
        Ok(outcome) => {
            let warned: bool = outcome.warnings.len() > 0;
            dialog.results = outcome.results;
            dialog.history = history;
            if warned {
                Some("搜索完成，但搜索历史没有保存")
            } else {
                None
            }
        },
        Err(error) => {
            dialog.results = Vec::new();
            dialog.error = Some(error);
            None
        },
    }
}

/// The dialog is about to be shown.
pub fn prepare_dialog(dialog: &mut SearchDialog, history: Vec<SearchHistoryEntry>)
    ensures
        final(dialog)@ == (DialogView { focus_input: true, history: history@, ..old(dialog)@ }),
{
    dialog.focus_input = true;
    dialog.history = history;
}

/// The recent queries were cleared.
pub fn history_cleared(dialog: &mut SearchDialog, failure: Option<String>) -> (r: Option<String>)
    ensures
        final(dialog)@ == (DialogView { history: Seq::empty(), ..old(dialog)@ }),
        text_opt(r) == (match failure {
            Some(error) => Some("清空搜索历史失败："@ + error@),
            None => None,
        }),
{
    dialog.history = Vec::new();
    match failure {
        Some(error) => {
            let mut text = "清空搜索历史失败：".to_owned();
            text.append(&error);
            Some(text)
        },
        None => None,
    }
}

/// How a background search failed.
pub fn search_failure(user_message: &str, technical_detail: &str) -> (r: String)
    ensures
        r@ == user_message@ + "（"@ + technical_detail@ + "）"@,
{
    let mut text = user_message.to_owned();
    text.append("（");
    text.append(technical_detail);
    text.append("）");
    text
}

// ---- what the modal shows -------------------------------------------------------

/// What stands below the input of the search modal.
#[derive(Debug, Clone, Copy, PartialEq, Eq, Structural)]
pub enum SearchBody {
    Error,
    Searching,
    Start { show_history: bool },
    NoMatch,
    Results,
}

pub open spec fn body_of(d: DialogView) -> SearchBody {
    if d.error is Some {
        SearchBody::Error
    } else if d.searching {
        SearchBody::Searching
    } else if d.searched_query.len() == 0 {
        SearchBody::Start { show_history: d.history.len() > 0 }
    } else if d.results.len() == 0 {
        SearchBody::NoMatch
    } else {
        SearchBody::Results
    }
}

impl SearchDialog {
    pub fn body(&self) -> (r: SearchBody)
        ensures
            r == body_of(self@),
    {
        if self.error.is_some() {
            SearchBody::Error
        } else if self.searching {
            SearchBody::Searching
        } else if chars_of(&self.searched_query).len() == 0 {
            SearchBody::Start { show_history: self.history.len() > 0 }
        } else if self.results.len() == 0 {
            SearchBody::NoMatch
        } else {
            SearchBody::Results
        }
    }

    pub fn found_label(&self) -> (r: String)
        ensures
            r@ == "找到 "@ + decimal(self@.results.len()) + " 条结果"@,
    {
        let mut text = "找到 ".to_owned();
        text.append(&decimal_usize(self.results.len()));
        text.append(" 条结果");
        text
    }

    pub fn query_label(&self) -> (r: String)
        ensures
            r@ == "“"@ + self@.searched_query + "”"@,
    {
        let mut text = "“".to_owned();
        text.append(&self.searched_query);
        text.append("”");
        text
    }

    /// A recent query was chosen.
    pub fn repeat_query(&mut self, entry: &SearchHistoryEntry)
        ensures
            final(self)@ == (DialogView { query: entry.query@, ..old(self)@ }),
    {
        self.query = entry.query.clone();
    }
}

pub fn history_label(entry: &SearchHistoryEntry) -> (r: String)
    ensures
        r@ == entry.query@ + "  · "@ + signed(entry.result_count as int),
{
    let mut text = entry.query.clone();
    text.append("  · ");
    text.append(&decimal_i64(entry.result_count));
    text
}

pub open spec fn hit_kind(primary: PrimaryIdentity) -> Seq<char> {
    match primary {
        PrimaryIdentity::Resource(_) => "资源"@,
        PrimaryIdentity::Article(_) => "文章"@,
    }
}

/// The title of a result, which is never blank.
pub open spec fn hit_title(title: Option<Seq<char>>) -> Seq<char> {
    if title is Some && trim(title->0).len() > 0 {
        title->0
    } else {
        "未命名资料"@
    }
}

/// One row of the results.
#[derive(Debug)]
pub struct HitRow {
    pub kind: &'static str,
    pub archived: bool,
    pub updated: String,
    pub title: String,
    /// Nothing where the result has no evidence that can be previewed.
    pub preview: String,
}

pub fn hit_row(hit: &LibrarySearchResult, query: &str) -> (r: HitRow)
    ensures
        r.kind@ == hit_kind(hit.primary),
        r.archived == hit.archived,
        r.updated@ == crate::calendar::shown_time(hit.updated_at),
        r.title@ == hit_title(text_opt(hit.title)),
        r.preview@ == (if hit.evidence@.len() > 0 {
            hit_preview(hit.evidence@[0].text@, query@, PREVIEW_CHARS as int).unwrap_or(
                Seq::empty(),
            )
        } else {
            Seq::empty()
        }),
        hit.evidence@.len() > 0 ==> (hit_preview(hit.evidence@[0].text@, query@, 180) matches Some(
            text,
        ) ==> r.preview@ == text),
        hit.evidence@.len() == 0 ==> r.preview@.len() == 0,
{
    let title: String = match &hit.title {
        Some(title) => if is_blank(title) {
            "未命名资料".to_owned()
        } else {
            title.clone()
        },
        None => "未命名资料".to_owned(),
    };
    let preview: String = if hit.evidence.len() > 0 {
        match search_preview(&hit.evidence[0].text, query, PREVIEW_CHARS) {
            Some(text) => text,
            None => String::new(),
        }
    } else {
        String::new()
    };
    HitRow {
        kind: match hit.primary {
            PrimaryIdentity::Resource(_) => "资源",
            PrimaryIdentity::Article(_) => "文章",
        },
        archived: hit.archived,
        updated: crate::calendar::format_timestamp(hit.updated_at),
        title,
        preview,
    }
}

// ---- opening a result -------------------------------------------------------------

/// Where a result leads.
#[derive(Debug, Clone, Copy, PartialEq, Eq, Structural)]
pub enum Opening {
    Resource(i64),
    /// An archived article is shown where it is, without being restored.
    Archived(ArticleTarget),
    Clipping(ArticleTarget),
    Feed(ArticleTarget),
    Nowhere,
}

pub open spec fn opening_of(primary: PrimaryIdentity, targets: Seq<ArticleTarget>) -> Opening {
    match primary {
        PrimaryIdentity::Resource(id) => Opening::Resource(id),
        PrimaryIdentity::Article(_) => if targets.len() == 0 {
            Opening::Nowhere
        } else if targets[0].archived {
            Opening::Archived(targets[0])
        } else if targets[0].web_clipping {
            Opening::Clipping(targets[0])
        } else {
            Opening::Feed(targets[0])
        },
    }
}

pub fn open_search_result(hit: &LibrarySearchResult) -> (r: Opening)
    ensures
        r == opening_of(hit.primary, hit.article_targets@),
{
    match hit.primary {
        PrimaryIdentity::Resource(id) => Opening::Resource(id),
        PrimaryIdentity::Article(_) => {
            if hit.article_targets.len() == 0 {
                return Opening::Nowhere;
            }
            let target: ArticleTarget = hit.article_targets[0];
            if target.archived {
                Opening::Archived(target)
            } else if target.web_clipping {
                Opening::Clipping(target)
            } else {
                Opening::Feed(target)
            }
        },
    }
}

pub open spec fn opening_text(opening: Opening) -> Seq<char> {
    match opening {
        Opening::Resource(_) => "已打开资源详情"@,
        Opening::Archived(_) => "正在查看已归档文章（未恢复）"@,
        Opening::Clipping(_) | Opening::Feed(_) => "已打开搜索结果"@,
        Opening::Nowhere => "搜索结果没有可打开的文章位置"@,
    }
}

impl Opening {
    pub fn notice(self) -> (r: &'static str)
        ensures
            r@ == opening_text(self),
    {
        match self {
            Opening::Resource(_) => "已打开资源详情",
            Opening::Archived(_) => "正在查看已归档文章（未恢复）",
            Opening::Clipping(_) | Opening::Feed(_) => "已打开搜索结果",
            Opening::Nowhere => "搜索结果没有可打开的文章位置",
        }
    }

    /// The passage to bring into view: an article and a selection in it.
    pub fn passage(self) -> (r: Option<(i64, i64)>)
        ensures
            r == (match self {
                Opening::Archived(t) | Opening::Clipping(t) | Opening::Feed(t) => match t.selection_id {
                    Some(selection) => Some((t.article_id, selection)),
                    None => None,
                },
                _ => None,
            }),
    {
        match self {
            Opening::Archived(t) | Opening::Clipping(t) | Opening::Feed(t) => match t.selection_id {
                Some(selection) => Some((t.article_id, selection)),
                None => None,
            },
            _ => None,
        }
    }
}

/// A search that has begun takes its own result and no earlier one, and an
/// emptied dialog takes none.
pub proof fn late_results_are_rejected(d: DialogView, f: FeatureView, incoming: u64)
    ensures
        next_generation(f.request_generation) != f.request_generation,
        awaits(
            searching_dialog(d, next_generation(f.request_generation)).active_request,
            incoming,
        ) <==> incoming == next_generation(f.request_generation),
        awaits(searching_resources(f).resource_request, incoming) <==> incoming == next_generation(
            f.request_generation,
        ),
        !awaits(cleared_dialog(d).active_request, incoming),
{
}

/// The answer that the resource page waits for ends the search. A result is
/// shown whole and in its order, and a failure with its reason and no result;
/// an answer that nothing waits for changes nothing.
pub proof fn awaited_results_are_shown(
    f: FeatureView,
    d: DialogView,
    result: Result<SearchOutcome, String>,
    history: Seq<SearchHistoryEntry>,
)
    ensures
        ({
            let shown = answered_resources(f, result);
            &&& !shown.resource_searching && shown.resource_request is None
            &&& shown.resource_query == f.resource_query && shown.request_generation
                == f.request_generation
            &&& result matches Ok(outcome) ==> shown.resource_results == outcome.results@
                && shown.resource_error is None
            &&& result matches Err(error) ==> shown.resource_results.len() == 0
                && shown.resource_error == Some(error@)
        }),
        ({
            let shown = answered_dialog(d, result, history);
            &&& !shown.searching && shown.active_request is None
            &&& shown.query == d.query && shown.searched_query == d.searched_query
            &&& result matches Ok(outcome) ==> shown.results == outcome.results@ && shown.history
                == history && shown.error == d.error
            &&& result matches Err(error) ==> shown.results.len() == 0 && shown.error == Some(
                error@,
            ) && shown.history == d.history
        }),
{
}

/// A search that begins shows that it runs, for the query without the blanks
/// around it, and nothing of the search before it. An emptied dialog shows
/// neither a search nor results. The query itself stays as it was written.
pub proof fn searches_begin_with_a_clean_page(f: FeatureView, d: DialogView, request: u64)
    ensures
        ({
            let shown = searching_resources(f);
            &&& shown.resource_searching && shown.resource_results.len() == 0
            &&& shown.resource_error is None && shown.resource_query == f.resource_query
            &&& shown.resource_request == Some(shown.request_generation)
            &&& f.request_generation < u64::MAX ==> shown.request_generation
                == f.request_generation + 1
        }),
        ({
            let shown = searching_dialog(d, request);
            &&& shown.searching && shown.active_request == Some(request)
            &&& shown.results.len() == 0 && shown.error is None
            &&& shown.searched_query == trim(d.query) && shown.query == d.query
            &&& shown.history == d.history
        }),
        ({
            let shown = cleared_dialog(d);
            &&& !shown.searching && shown.active_request is None
            &&& shown.results.len() == 0 && shown.error is None
            &&& shown.searched_query.len() == 0 && shown.query == d.query
            &&& shown.history == d.history
        }),
{
}

/// The desktop searches what was curated, for resources and articles alike, as
/// a reader, and for at most fifty results.
pub proof fn desktop_searches_are_bounded(request: SearchRequest, query: Seq<char>)
    requires
        asks_for(request, query),
    ensures
        request.query@ == query,
        request.scope is Curated,
        request.result_type is All,
        request.origin is Human,
        request.limit == 50,
{
}

/// Below the input stands the failure where there is one, then that a search
/// runs, then the start where nothing was searched for, then that nothing was
/// found, and then what was found.
pub proof fn the_modal_shows_one_thing(d: DialogView)
    ensures
        body_of(d) is Error <==> d.error is Some,
        body_of(d) is Searching <==> d.error is None && d.searching,
        body_of(d) is Start <==> d.error is None && !d.searching && d.searched_query.len() == 0,
        body_of(d) is NoMatch <==> d.error is None && !d.searching && d.searched_query.len() > 0
            && d.results.len() == 0,
        body_of(d) is Results <==> d.error is None && !d.searching && d.searched_query.len() > 0
            && d.results.len() > 0,
        body_of(d) matches SearchBody::Start { show_history } ==> show_history == (d.history.len()
            > 0),
{
}

/// A result leads to its resource, or to the first place of its article: where
/// it was archived it is looked at there, a clipping is opened as one, and any
/// other article in its feed.
pub proof fn results_lead_to_their_place(primary: PrimaryIdentity, targets: Seq<ArticleTarget>)
    ensures
        primary matches PrimaryIdentity::Resource(id) ==> opening_of(primary, targets)
            == Opening::Resource(id),
        primary is Article && targets.len() == 0 ==> opening_of(primary, targets) is Nowhere,
        primary is Article && targets.len() > 0 && targets[0].archived ==> opening_of(
            primary,
            targets,
        ) == Opening::Archived(targets[0]),
        primary is Article && targets.len() > 0 && !targets[0].archived && targets[0].web_clipping
            ==> opening_of(primary, targets) == Opening::Clipping(targets[0]),
        primary is Article && targets.len() > 0 && !targets[0].archived
            && !targets[0].web_clipping ==> opening_of(primary, targets) == Opening::Feed(
            targets[0],
        ),
{
}

/// What is told of a result: its kind, that it was opened, and a title that is
/// never blank.
pub proof fn results_are_named(primary: PrimaryIdentity, title: Option<Seq<char>>, opening: Opening)
    ensures
        primary is Resource ==> hit_kind(primary) == "资源"@,
        primary is Article ==> hit_kind(primary) == "文章"@,
        title is Some && trim(title->0).len() > 0 ==> hit_title(title) == title->0,
        !(title is Some && trim(title->0).len() > 0) ==> hit_title(title) == "未命名资料"@,
        opening is Resource ==> opening_text(opening) == "已打开资源详情"@,
        opening is Archived ==> opening_text(opening) == "正在查看已归档文章（未恢复）"@,
        opening is Clipping || opening is Feed ==> opening_text(opening) == "已打开搜索结果"@,
        opening is Nowhere ==> opening_text(opening) == "搜索结果没有可打开的文章位置"@,
        unrecorded() == "搜索完成，但搜索历史没有保存"@,
{
}

} // verus!
