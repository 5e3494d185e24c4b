//! What a knowledge task is, and how its parts are spelled in storage.

use vstd::prelude::*;

use crate::text::{same_text, text_opt};

verus! {

#[derive(Debug, Clone, Copy, PartialEq, Eq, Hash, Structural)]
pub enum TaskKind {
    ResourceCompletion,
    ArticleSummary,
}

pub open spec fn kind_name(kind: TaskKind) -> Seq<char> {
    match kind {
        TaskKind::ResourceCompletion => "resource_completion"@,
        TaskKind::ArticleSummary => "article_summary"@,
    }
}

pub open spec fn kind_of(name: Seq<char>) -> Option<TaskKind> {
    if name == "resource_completion"@ {
        Some(TaskKind::ResourceCompletion)
    } else if name == "article_summary"@ {
        Some(TaskKind::ArticleSummary)
    } else {
        None
    }
}

/// `message` followed by the value that was not understood.
fn unknown(message: &str, value: &str) -> (r: String)
    ensures
        r@ == message@ + value@,
{
    let mut text = message.to_owned();
    text.append(value);
    text
}

impl TaskKind {
    pub fn as_str(self) -> (r: &'static str)
        ensures
            r@ == kind_name(self),
    {
        match self {
            TaskKind::ResourceCompletion => "resource_completion",
            TaskKind::ArticleSummary => "article_summary",
        }
    }

    pub fn parse(value: &str) -> (r: Result<TaskKind, String>)
        ensures
            match r {
                Ok(kind) => kind_of(value@) == Some(kind),
                Err(message) => kind_of(value@) is None && message@
                    == "unknown knowledge task kind: "@ + value@,
            },
    {
        if same_text(value, "resource_completion") {
            Ok(TaskKind::ResourceCompletion)
        } else if same_text(value, "article_summary") {
            Ok(TaskKind::ArticleSummary)
        } else {
            Err(unknown("unknown knowledge task kind: ", value))
        }
    }
}

#[derive(Debug, Clone, Copy, PartialEq, Eq, Hash, Structural)]
pub struct TaskKey {
    pub kind: TaskKind,
    pub target_id: i64,
}

impl TaskKey {
    pub fn new(kind: TaskKind, target_id: i64) -> (r: TaskKey)
        ensures
            r == (TaskKey { kind, target_id }),
    {
        TaskKey { kind, target_id }
    }
}

#[derive(Debug, Clone, Copy, PartialEq, Eq, Structural)]
pub enum TaskStatus {
    Queued,
    Running,
    Succeeded,
    Failed,
    Interrupted,
}

pub open spec fn status_name(status: TaskStatus) -> Seq<char> {
    match status {
        TaskStatus::Queued => "queued"@,
        TaskStatus::Running => "running"@,
        TaskStatus::Succeeded => "succeeded"@,
        TaskStatus::Failed => "failed"@,
        TaskStatus::Interrupted => "interrupted"@,
    }
}

pub open spec fn status_of(name: Seq<char>) -> Option<TaskStatus> {
    if name == "queued"@ {
        Some(TaskStatus::Queued)
    } else if name == "running"@ {
        Some(TaskStatus::Running)
    } else if name == "succeeded"@ {
        Some(TaskStatus::Succeeded)
    } else if name == "failed"@ {
        Some(TaskStatus::Failed)
    } else if name == "interrupted"@ {
        Some(TaskStatus::Interrupted)
    } else {
        None
    }
}

/// No executor works on such a task any more, and none will on its own.
pub open spec fn terminal(status: TaskStatus) -> bool {
    status is Succeeded || status is Failed || status is Interrupted
}

/// An executor works on such a task, or will.
pub open spec fn pending(status: TaskStatus) -> bool {
    status is Queued || status is Running
}

impl TaskStatus {
    pub fn as_str(self) -> (r: &'static str)
        ensures
            r@ == status_name(self),
    {
        match self {
            TaskStatus::Queued => "queued",
            TaskStatus::Running => "running",
            TaskStatus::Succeeded => "succeeded",
            TaskStatus::Failed => "failed",
            TaskStatus::Interrupted => "interrupted",
        }
    }

    pub fn parse(value: &str) -> (r: Result<TaskStatus, String>)
        ensures
            match r {
                Ok(status) => status_of(value@) == Some(status),
                Err(message) => status_of(value@) is None && message@
                    == "unknown knowledge task status: "@ + value@,
            },
    {
        if same_text(value, "queued") {
            Ok(TaskStatus::Queued)
        } else if same_text(value, "running") {
            Ok(TaskStatus::Running)
        } else if same_text(value, "succeeded") {
            Ok(TaskStatus::Succeeded)
        } else if same_text(value, "failed") {
            Ok(TaskStatus::Failed)
        } else if same_text(value, "interrupted") {
            Ok(TaskStatus::Interrupted)
        } else {
            Err(unknown("unknown knowledge task status: ", value))
        }
    }

    pub fn is_terminal(self) -> (r: bool)
        ensures
            r == terminal(self),
    {
        matches!(self, TaskStatus::Succeeded | TaskStatus::Failed | TaskStatus::Interrupted)
    }
}

#[derive(Debug, Clone, Copy, PartialEq, Eq, Structural)]
pub enum TaskStage {
    Fetching,
    Organizing,
    Summarizing,
}

pub open spec fn stage_name(stage: TaskStage) -> Seq<char> {
    match stage {
        TaskStage::Fetching => "fetching"@,
        TaskStage::Organizing => "organizing"@,
        TaskStage::Summarizing => "summarizing"@,
    }
}

pub open spec fn stage_of(name: Seq<char>) -> Option<TaskStage> {
    if name == "fetching"@ {
        Some(TaskStage::Fetching)
    } else if name == "organizing"@ {
        Some(TaskStage::Organizing)
    } else if name == "summarizing"@ {
        Some(TaskStage::Summarizing)
    } else {
        None
    }
}

impl TaskStage {
    pub fn as_str(self) -> (r: &'static str)
        ensures
            r@ == stage_name(self),
    {
        match self {
            TaskStage::Fetching => "fetching",
            TaskStage::Organizing => "organizing",
            TaskStage::Summarizing => "summarizing",
        }
    }

    /// A stored stage; a task that is not running has none.
    pub fn parse(value: Option<String>) -> (r: Result<Option<TaskStage>, String>)
        ensures
            match text_opt(value) {
                None => r == Ok::<Option<TaskStage>, String>(None),
                Some(name) => match r {
                    Ok(stage) => stage is Some && stage_of(name) == stage,
                    Err(message) => stage_of(name) is None && message@
                        == "unknown knowledge task stage: "@ + name,
                },
            },
    {
        match value {
            None => Ok(None),
            Some(name) => if same_text(&name, "fetching") {
                Ok(Some(TaskStage::Fetching))
            } else if same_text(&name, "organizing") {
                Ok(Some(TaskStage::Organizing))
            } else if same_text(&name, "summarizing") {
                Ok(Some(TaskStage::Summarizing))
            } else {
                Err(unknown("unknown knowledge task stage: ", &name))
            },
        }
    }
}

#[derive(Debug, Clone, Copy, PartialEq, Eq, Structural)]
pub enum ErrorKind {
    Transient,
    Authentication,
    Security,
    Input,
    ProviderOutput,
    Storage,
    Interrupted,
}

pub open spec fn error_name(kind: ErrorKind) -> Seq<char> {
    match kind {
        ErrorKind::Transient => "transient"@,
        ErrorKind::Authentication => "authentication"@,
        ErrorKind::Security => "security"@,
        ErrorKind::Input => "input"@,
        ErrorKind::ProviderOutput => "provider_output"@,
        ErrorKind::Storage => "storage"@,
        ErrorKind::Interrupted => "interrupted"@,
    }
}

pub open spec fn error_of(name: Seq<char>) -> Option<ErrorKind> {
    if name == "transient"@ {
        Some(ErrorKind::Transient)
    } else if name == "authentication"@ {
        Some(ErrorKind::Authentication)
    } else if name == "security"@ {
        Some(ErrorKind::Security)
    } else if name == "input"@ {
        Some(ErrorKind::Input)
    } else if name == "provider_output"@ {
        Some(ErrorKind::ProviderOutput)
    } else if name == "storage"@ {
        Some(ErrorKind::Storage)
    } else if name == "interrupted"@ {
        Some(ErrorKind::Interrupted)
    } else {
        None
    }
}

/// The stable code that commands print for an error.
pub open spec fn error_code(kind: ErrorKind) -> Seq<char> {
    match kind {
        ErrorKind::Transient => "WORKFLOW_TRANSIENT"@,
        ErrorKind::Authentication => "WORKFLOW_AUTHENTICATION"@,
        ErrorKind::Security => "WORKFLOW_SECURITY"@,
        ErrorKind::Input => "WORKFLOW_TARGET_INVALID"@,
        ErrorKind::ProviderOutput => "WORKFLOW_PROVIDER_OUTPUT"@,
        ErrorKind::Storage => "WORKFLOW_STORAGE"@,
        ErrorKind::Interrupted => "WORKFLOW_INTERRUPTED"@,
    }
}

impl ErrorKind {
    pub fn as_str(self) -> (r: &'static str)
        ensures
            r@ == error_name(self),
    {
        match self {
            ErrorKind::Transient => "transient",
            ErrorKind::Authentication => "authentication",
            ErrorKind::Security => "security",
            ErrorKind::Input => "input",
            ErrorKind::ProviderOutput => "provider_output",
            ErrorKind::Storage => "storage",
            ErrorKind::Interrupted => "interrupted",
        }
    }

    /// A stored error kind; an attempt that has not failed has none.
    pub fn parse(value: Option<String>) -> (r: Result<Option<ErrorKind>, String>)
        ensures
            match text_opt(value) {
                None => r == Ok::<Option<ErrorKind>, String>(None),
                Some(name) => match r {
                    Ok(kind) => kind is Some && error_of(name) == kind,
                    Err(message) => error_of(name) is None && message@
                        == "unknown knowledge task error kind: "@ + name,
                },
            },
    {
        match value {
            None => Ok(None),
            Some(name) => if same_text(&name, "transient") {
                Ok(Some(ErrorKind::Transient))
            } else if same_text(&name, "authentication") {
                Ok(Some(ErrorKind::Authentication))
            } else if same_text(&name, "security") {
                Ok(Some(ErrorKind::Security))
            } else if same_text(&name, "input") {
                Ok(Some(ErrorKind::Input))
            } else if same_text(&name, "provider_output") {
                Ok(Some(ErrorKind::ProviderOutput))
            } else if same_text(&name, "storage") {
                Ok(Some(ErrorKind::Storage))
            } else if same_text(&name, "interrupted") {
                Ok(Some(ErrorKind::Interrupted))
            } else {
                Err(unknown("unknown knowledge task error kind: ", &name))
            },
        }
    }

    pub fn code(self) -> (r: &'static str)
        ensures
            r@ == error_code(self),
    {
        match self {
            ErrorKind::Transient => "WORKFLOW_TRANSIENT",
            ErrorKind::Authentication => "WORKFLOW_AUTHENTICATION",
            ErrorKind::Security => "WORKFLOW_SECURITY",
            ErrorKind::Input => "WORKFLOW_TARGET_INVALID",
            ErrorKind::ProviderOutput => "WORKFLOW_PROVIDER_OUTPUT",
            ErrorKind::Storage => "WORKFLOW_STORAGE",
            ErrorKind::Interrupted => "WORKFLOW_INTERRUPTED",
        }
    }
}

/// What an observer sees of a task: the task and its newest attempt.
#[derive(Debug, Clone, PartialEq, Eq)]
pub struct TaskSnapshot {
    pub task_id: i64,
    pub key: TaskKey,
    pub status: TaskStatus,
    pub current_stage: Option<TaskStage>,
    pub attempt_number: i64,
    pub automatic_retry: bool,
    pub error_kind: Option<ErrorKind>,
    pub user_message: Option<String>,
    pub technical_detail: Option<String>,
    pub change_seq: i64,
}

#[derive(Debug, Clone, Copy, PartialEq, Eq, Structural)]
pub enum RequestDisposition {
    Created,
    Existing,
    Retried,
}

#[derive(Debug, Clone, Copy, PartialEq, Eq, Structural)]
pub struct RequestReceipt {
    pub key: TaskKey,
    pub disposition: RequestDisposition,
}

#[derive(Debug, Clone, PartialEq, Eq)]
pub enum ConnectionState {
    Running,
    Succeeded(String),
    Failed { detail: String },
}

#[derive(Debug, Clone, PartialEq, Eq)]
pub enum KnowledgeNotice {
    Changed(TaskKey),
    ConnectionChanged(ConnectionState),
    ModuleFault { user_message: String, technical_detail: String },
}

/// Every stored spelling is read back as the value that wrote it.
pub proof fn stored_names_are_read_back(
    kind: TaskKind,
    status: TaskStatus,
    stage: TaskStage,
    error: ErrorKind,
)
    ensures
        kind_of(kind_name(kind)) == Some(kind),
        status_of(status_name(status)) == Some(status),
        stage_of(stage_name(stage)) == Some(stage),
        error_of(error_name(error)) == Some(error),
{
    reveal_strlit("resource_completion");
    reveal_strlit("article_summary");
    reveal_strlit("queued");
    reveal_strlit("running");
    reveal_strlit("succeeded");
    reveal_strlit("failed");
    reveal_strlit("interrupted");
    reveal_strlit("fetching");
    reveal_strlit("organizing");
    reveal_strlit("summarizing");
    reveal_strlit("transient");
    reveal_strlit("authentication");
    reveal_strlit("security");
    reveal_strlit("input");
    reveal_strlit("provider_output");
    reveal_strlit("storage");
    assert("resource_completion"@.len() == 19 && "article_summary"@.len() == 15);
    assert("queued"@.len() == 6 && "running"@.len() == 7 && "succeeded"@.len() == 9);
    assert("queued"@[0] == 'q' && "failed"@[0] == 'f' && "failed"@.len() == 6);
    assert("interrupted"@.len() == 11);
    assert("fetching"@.len() == 8 && "organizing"@.len() == 10 && "summarizing"@.len() == 11);
    assert("transient"@.len() == 9 && "authentication"@.len() == 14 && "security"@.len() == 8);
    assert("input"@.len() == 5 && "provider_output"@.len() == 15 && "storage"@.len() == 7);
}

/// The names under which kinds, states, stages and errors are stored.
pub proof fn stored_names_are_fixed(
    kind: TaskKind,
    status: TaskStatus,
    stage: TaskStage,
    error: ErrorKind,
)
    ensures
        kind_name(kind) == "resource_completion"@ <==> kind is ResourceCompletion,
        kind_name(kind) == "article_summary"@ <==> kind is ArticleSummary,
        status_name(status) == "queued"@ <==> status is Queued,
        status_name(status) == "running"@ <==> status is Running,
        status_name(status) == "succeeded"@ <==> status is Succeeded,
        status_name(status) == "failed"@ <==> status is Failed,
        status_name(status) == "interrupted"@ <==> status is Interrupted,
        stage_name(stage) == "fetching"@ <==> stage is Fetching,
        stage_name(stage) == "organizing"@ <==> stage is Organizing,
        stage_name(stage) == "summarizing"@ <==> stage is Summarizing,
        error_name(error) == "transient"@ <==> error is Transient,
        error_name(error) == "authentication"@ <==> error is Authentication,
        error_name(error) == "security"@ <==> error is Security,
        error_name(error) == "input"@ <==> error is Input,
        error_name(error) == "provider_output"@ <==> error is ProviderOutput,
        error_name(error) == "storage"@ <==> error is Storage,
        error_name(error) == "interrupted"@ <==> error is Interrupted,
{
    reveal_strlit("resource_completion");
    reveal_strlit("article_summary");
    assert("resource_completion"@.len() != "article_summary"@.len());
    stored_names_are_read_back(kind, status, stage, error);
    stored_names_are_read_back(
        TaskKind::ResourceCompletion,
        TaskStatus::Queued,
        TaskStage::Fetching,
        ErrorKind::Transient,
    );
    stored_names_are_read_back(
        TaskKind::ArticleSummary,
        TaskStatus::Running,
        TaskStage::Organizing,
        ErrorKind::Authentication,
    );
    stored_names_are_read_back(
        TaskKind::ArticleSummary,
        TaskStatus::Succeeded,
        TaskStage::Summarizing,
        ErrorKind::Security,
    );
    stored_names_are_read_back(
        TaskKind::ArticleSummary,
        TaskStatus::Failed,
        TaskStage::Summarizing,
        ErrorKind::Input,
    );
    stored_names_are_read_back(
        TaskKind::ArticleSummary,
        TaskStatus::Interrupted,
        TaskStage::Summarizing,
        ErrorKind::ProviderOutput,
    );
    stored_names_are_read_back(
        TaskKind::ArticleSummary,
        TaskStatus::Interrupted,
        TaskStage::Summarizing,
        ErrorKind::Storage,
    );
    stored_names_are_read_back(
        TaskKind::ArticleSummary,
        TaskStatus::Interrupted,
        TaskStage::Summarizing,
        ErrorKind::Interrupted,
    );
}

/// A name that is stored for nothing is not read.
pub proof fn unknown_names_are_not_read(name: Seq<char>)
    ensures
        kind_of(name) is Some <==> name == "resource_completion"@ || name == "article_summary"@,
        status_of(name) is Some <==> name == "queued"@ || name == "running"@ || name
            == "succeeded"@ || name == "failed"@ || name == "interrupted"@,
        stage_of(name) is Some <==> name == "fetching"@ || name == "organizing"@ || name
            == "summarizing"@,
        error_of(name) is Some <==> name == "transient"@ || name == "authentication"@ || name
            == "security"@ || name == "input"@ || name == "provider_output"@ || name
            == "storage"@ || name == "interrupted"@,
{
}

/// A task has ended exactly where it neither waits nor runs.
pub proof fn tasks_end_or_are_pending(status: TaskStatus)
    ensures
        pending(status) <==> status is Queued || status is Running,
        terminal(status) <==> status is Succeeded || status is Failed || status is Interrupted,
        terminal(status) <==> !pending(status),
{
}

/// Programs read one code for each kind of error.
pub proof fn error_codes_are_fixed(kind: ErrorKind)
    ensures
        kind is Transient ==> error_code(kind) == "WORKFLOW_TRANSIENT"@,
        kind is Authentication ==> error_code(kind) == "WORKFLOW_AUTHENTICATION"@,
        kind is Security ==> error_code(kind) == "WORKFLOW_SECURITY"@,
        kind is Input ==> error_code(kind) == "WORKFLOW_TARGET_INVALID"@,
        kind is ProviderOutput ==> error_code(kind) == "WORKFLOW_PROVIDER_OUTPUT"@,
        kind is Storage ==> error_code(kind) == "WORKFLOW_STORAGE"@,
        kind is Interrupted ==> error_code(kind) == "WORKFLOW_INTERRUPTED"@,
{
}

} // verus!
