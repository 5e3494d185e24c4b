//! The page on the library's storage.

use vstd::prelude::*;

use crate::gui::modal_state::BackupEntry;
use crate::image_store::SHRUNK_LIMIT_BYTES;
use crate::knowledge_workflow::types::ConnectionState;
use crate::number::{decimal, decimal_u64, decimal_usize};
use crate::text::{join, join_texts, texts};

verus! {

/// How many backups are kept.
pub const BACKUPS_KEPT: usize = 10;

#[derive(Debug, Clone, Copy, PartialEq, Eq, Structural)]
pub enum BackupProtection {
    Plain,
    WindowsUser,
}

#[derive(Debug, Clone, Copy, PartialEq, Eq, Structural)]
pub enum NetworkMode {
    Strict,
    TunCompatible,
}

/// Something that the page does at once.
#[derive(Debug, Clone, Copy, PartialEq, Eq, Structural)]
pub enum StorageAction {
    Check,
    Backup(BackupProtection),
    PruneImages,
    ClearImages,
    PruneBackups,
    OpenFolder,
}

/// Something that the page hands to background maintenance.
#[derive(Debug, Clone, Copy, PartialEq, Eq, Structural)]
pub enum MaintenanceRequest {
    Compact,
    Restore,
}

/// What is asked of the library, of the image cache or of the system.
#[derive(Debug, Clone, Copy, PartialEq, Eq, Structural)]
pub enum StorageCall {
    CheckIntegrity,
    CreateBackup(BackupProtection),
    /// Shrinks the image cache to so many bytes.
    PruneImages { limit: u64 },
    ClearImages,
    /// Drops all backups but the latest.
    PruneBackups { keep: usize },
    OpenFolder,
}

/// What an action asks for.
pub fn storage_call(action: StorageAction) -> (r: StorageCall)
    ensures
        r == (match action {
            StorageAction::Check => StorageCall::CheckIntegrity,
            StorageAction::Backup(protection) => StorageCall::CreateBackup(protection),
            StorageAction::PruneImages => StorageCall::PruneImages { limit: SHRUNK_LIMIT_BYTES },
            StorageAction::ClearImages => StorageCall::ClearImages,
            StorageAction::PruneBackups => StorageCall::PruneBackups { keep: BACKUPS_KEPT },
            StorageAction::OpenFolder => StorageCall::OpenFolder,
        }),
{
    match action {
        StorageAction::Check => StorageCall::CheckIntegrity,
        StorageAction::Backup(protection) => StorageCall::CreateBackup(protection),
        StorageAction::PruneImages => StorageCall::PruneImages { limit: SHRUNK_LIMIT_BYTES },
        StorageAction::ClearImages => StorageCall::ClearImages,
        StorageAction::PruneBackups => StorageCall::PruneBackups { keep: BACKUPS_KEPT },
        StorageAction::OpenFolder => StorageCall::OpenFolder,
    }
}

/// What the page says of an action that was done. `detail` is what the check
/// said, where the backup is, or how much was freed.
pub open spec fn done_text(action: StorageAction, detail: Seq<char>) -> Seq<char> {
    match action {
        StorageAction::Check => detail,
        StorageAction::Backup(_) => "备份已创建："@ + detail,
        StorageAction::PruneImages => "图片缓存已释放 "@ + detail,
        StorageAction::ClearImages => "图片缓存已清空，释放 "@ + detail,
        StorageAction::PruneBackups => "旧备份已清理，释放 "@ + detail,
        StorageAction::OpenFolder => "已打开资料库目录"@,
    }
}

fn joined(head: &str, tail: &str) -> (r: String)
    ensures
        r@ == head@ + tail@,
{
    let mut text = head.to_owned();
    text.append(tail);
    text
}

pub fn action_done(action: StorageAction, result: Result<String, String>) -> (r: String)
    ensures
        r@ == (match result {
            Ok(detail) => done_text(action, detail@),
            Err(error) => "操作失败："@ + error@,
        }),
{
    match result {
        Err(error) => joined("操作失败：", &error),
        Ok(detail) => match action {
            StorageAction::Check => detail,
            StorageAction::Backup(_) => joined("备份已创建：", &detail),
            StorageAction::PruneImages => joined("图片缓存已释放 ", &detail),
            StorageAction::ClearImages => joined("图片缓存已清空，释放 ", &detail),
            StorageAction::PruneBackups => joined("旧备份已清理，释放 ", &detail),
            StorageAction::OpenFolder => "已打开资料库目录".to_owned(),
        },
    }
}

pub fn maintenance_requested(request: MaintenanceRequest, failure: Option<String>) -> (r: String)
    ensures
        r@ == (match failure {
            None => match request {
                MaintenanceRequest::Compact => "数据库压缩已进入后台维护流程"@,
                MaintenanceRequest::Restore => "资料库恢复已进入后台维护流程"@,
            },
            Some(error) => "操作失败："@ + error@,
        }),
{
    match failure {
        None => match request {
            MaintenanceRequest::Compact => "数据库压缩已进入后台维护流程".to_owned(),
            MaintenanceRequest::Restore => "资料库恢复已进入后台维护流程".to_owned(),
        },
        Some(error) => joined("操作失败：", &error),
    }
}

/// What follows from a confirmation: confirming wins over cancelling, and
/// both close the modal.
#[derive(Debug, Clone, Copy, PartialEq, Eq, Structural)]
pub enum Confirmation {
    Proceed,
    Close,
    Stay,
}

pub fn confirmation(shown: bool, confirm: bool, cancel: bool) -> (r: Confirmation)
    ensures
        r == (if shown && confirm {
            Confirmation::Proceed
        } else if shown && cancel {
            Confirmation::Close
        } else {
            Confirmation::Stay
        }),
{
    if shown && confirm {
        Confirmation::Proceed
    } else if shown && cancel {
        Confirmation::Close
    } else {
        Confirmation::Stay
    }
}

// ---- settings ------------------------------------------------------------------------------

pub fn scale_label(percent: u64) -> (r: String)
    ensures
        r@ == decimal(percent as nat) + "%"@,
{
    let mut text = decimal_u64(percent);
    text.append("%");
    text
}

pub fn scale_changed(percent: u64, failure: Option<String>) -> (r: String)
    ensures
        r@ == (match failure {
            None => "界面缩放已设为 "@ + decimal(percent as nat) + "%"@,
            Some(error) => "界面缩放未修改："@ + error@,
        }),
{
    match failure {
        None => {
            let mut text = "界面缩放已设为 ".to_owned();
            text.append(&decimal_u64(percent));
            text.append("%");
            text
        },
        Some(error) => joined("界面缩放未修改：", &error),
    }
}

pub open spec fn mode_text(mode: NetworkMode) -> Seq<char> {
    match mode {
        NetworkMode::Strict => "严格公网（默认）"@,
        NetworkMode::TunCompatible => "兼容 TUN/代理 DNS"@,
    }
}

pub fn network_mode_label(mode: NetworkMode) -> (r: &'static str)
    ensures
        r@ == mode_text(mode),
{
    match mode {
        NetworkMode::Strict => "严格公网（默认）",
        NetworkMode::TunCompatible => "兼容 TUN/代理 DNS",
    }
}

pub fn network_mode_changed(failure: Option<String>) -> (r: String)
    ensures
        r@ == (match failure {
            None => "网络模式已保存，重启后对后台请求生效"@,
            Some(error) => "网络模式未修改："@ + error@,
        }),
{
    match failure {
        None => "网络模式已保存，重启后对后台请求生效".to_owned(),
        Some(error) => joined("网络模式未修改：", &error),
    }
}

pub open spec fn connection_label(state: ConnectionState) -> Seq<char> {
    match state {
        ConnectionState::Running => "正在测试 DeepSeek 连接"@,
        ConnectionState::Failed { .. } => "连接测试失败"@,
        ConnectionState::Succeeded(_) => "连接测试成功"@,
    }
}

pub fn connection_line(state: &ConnectionState) -> (r: &'static str)
    ensures
        r@ == connection_label(*state),
{
    match state {
        ConnectionState::Running => "正在测试 DeepSeek 连接",
        ConnectionState::Failed { .. } => "连接测试失败",
        ConnectionState::Succeeded(_) => "连接测试成功",
    }
}

// ---- figures ---------------------------------------------------------------------------------

/// The line on the image cache; `size` is its size as the page writes it.
pub fn image_cache_line(size: &str, objects: usize, references: usize) -> (r: String)
    ensures
        r@ == size@ + " · "@ + decimal(objects as nat) + " 个对象 / "@ + decimal(references as nat)
            + " 个网址"@,
{
    let mut text = size.to_owned();
    text.append(" · ");
    text.append(&decimal_usize(objects));
    text.append(" 个对象 / ");
    text.append(&decimal_usize(references));
    text.append(" 个网址");
    text
}

pub fn backups_line(size: &str, count: usize) -> (r: String)
    ensures
        r@ == size@ + " · "@ + decimal(count as nat) + " 份"@,
{
    let mut text = size.to_owned();
    text.append(" · ");
    text.append(&decimal_usize(count));
    text.append(" 份");
    text
}

/// The bytes of all backups together, as far as they can be counted.
pub open spec fn total_bytes(backups: Seq<BackupEntry>) -> int
    decreases backups.len(),
{
    if backups.len() == 0 {
        0
    } else {
        total_bytes(backups.drop_last()) + backups.last().size
    }
}

proof fn lemma_total_bytes(backups: Seq<BackupEntry>, i: int)
    requires
        0 <= i <= backups.len(),
    ensures
        0 <= total_bytes(backups.take(i)) <= total_bytes(backups),
    decreases backups.len(),
{
    if i == backups.len() {
        assert(backups.take(i) =~= backups);
        if i > 0 {
            lemma_total_bytes(backups.drop_last(), i - 1);
            assert(backups.drop_last().take(i - 1) =~= backups.drop_last());
        }
    } else {
        lemma_total_bytes(backups.drop_last(), i);
        assert(backups.drop_last().take(i) =~= backups.take(i));
    }
}

pub fn backup_bytes(backups: &[BackupEntry]) -> (r: u64)
    requires
        total_bytes(backups@) <= u64::MAX,
    ensures
        r == total_bytes(backups@),
{
    let mut total: u64 = 0;
    let mut i: usize = 0;
    while i < backups.len()
        invariant
            i <= backups.len(),
            total == total_bytes(backups@.take(i as int)),
            total_bytes(backups@) <= u64::MAX,
        decreases backups.len() - i,
    {
        proof {
            assert(backups@.take(i + 1).drop_last() =~= backups@.take(i as int));
            assert(backups@.take(i + 1).last() == backups@[i as int]);
            lemma_total_bytes(backups@, i + 1);
        }
        total = total + backups[i].size;
        i += 1;
    }
    proof {
        assert(backups@.take(backups@.len() as int) =~= backups@);
    }
    total
}

/// One backup, with its time and its size as the page writes them.
pub fn backup_line(entry: &BackupEntry, modified: &str, size: &str) -> (r: String)
    ensures
        r@ == modified@ + "  "@ + size@ + "  "@ + (if entry.protected {
            "Windows 加密"@
        } else {
            "普通"@
        }),
{
    let mut text = modified.to_owned();
    text.append("  ");
    text.append(size);
    text.append("  ");
    if entry.protected {
        text.append("Windows 加密");
    } else {
        text.append("普通");
    }
    text
}

/// The parts of the program that did not start again after maintenance.
pub fn failed_participants_line(names: &[String]) -> (r: Option<String>)
    ensures
        crate::text::text_opt(r) == (if names@.len() == 0 {
            None
        } else {
            Some("未恢复的后台模块："@ + join(texts(names@), "、"@))
        }),
{
    if names.len() == 0 {
        return None;
    }
    Some(joined("未恢复的后台模块：", &join_texts(names, "、")))
}

/// What was done is told with what it came to.
pub proof fn storage_actions_are_told(
    detail: Seq<char>,
    protection: BackupProtection,
    mode: NetworkMode,
    state: ConnectionState,
)
    ensures
        done_text(StorageAction::Check, detail) == detail,
        done_text(StorageAction::Backup(protection), detail) == "备份已创建："@ + detail,
        done_text(StorageAction::PruneImages, detail) == "图片缓存已释放 "@ + detail,
        done_text(StorageAction::ClearImages, detail) == "图片缓存已清空，释放 "@ + detail,
        done_text(StorageAction::PruneBackups, detail) == "旧备份已清理，释放 "@ + detail,
        done_text(StorageAction::OpenFolder, detail) == "已打开资料库目录"@,
        mode is Strict ==> mode_text(mode) == "严格公网（默认）"@,
        mode is TunCompatible ==> mode_text(mode) == "兼容 TUN/代理 DNS"@,
        state is Running ==> connection_label(state) == "正在测试 DeepSeek 连接"@,
        state is Failed ==> connection_label(state) == "连接测试失败"@,
        state is Succeeded ==> connection_label(state) == "连接测试成功"@,
{
}

/// The image cache is shrunk to half a gigabyte, and ten backups are kept;
/// backups count with all their bytes.
pub proof fn storage_keeps_its_bounds(backups: Seq<BackupEntry>, backup: BackupEntry)
    ensures
        SHRUNK_LIMIT_BYTES == 512 * 1024 * 1024,
        BACKUPS_KEPT == 10,
        total_bytes(Seq::empty()) == 0,
        total_bytes(backups.push(backup)) == total_bytes(backups) + backup.size,
{
    assert(backups.push(backup).drop_last() =~= backups);
}

} // verus!
