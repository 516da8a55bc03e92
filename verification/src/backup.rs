//! Backups of settings and data. An update of the plugin clears its directory, so the user keeps
//! a backup in a file and restores it afterwards.
use vstd::prelude::*;
use vstd::string::*;

use crate::state::{AppState, DataFile, DataView, Settings, SettingsView};
use crate::text::{digits, text_eq, u64_text, usize_text};

verus! {

/// What marks a file as a backup of this plugin.
pub const BACKUP_KIND: &'static str = "dsboard-backup";

/// The version of the backup's form.
pub const BACKUP_VERSION: u32 = 1;

/// A backup.
#[derive(Debug, Clone, PartialEq)]
pub struct BackupFile<M> {
    pub kind: String,
    pub version: u32,
    /// Unix seconds.
    pub exported_at: i64,
    pub settings: Settings,
    pub data: DataFile<M>,
}

/// What a backup says.
pub struct BackupView<M> {
    pub kind: Seq<char>,
    pub version: u32,
    pub exported_at: i64,
    pub settings: SettingsView,
    pub data: DataView<M>,
}

impl<M> View for BackupFile<M> {
    type V = BackupView<M>;

    open spec fn view(&self) -> BackupView<M> {
        BackupView {
            kind: self.kind@,
            version: self.version,
            exported_at: self.exported_at,
            settings: self.settings@,
            data: self.data@,
        }
    }
}

/// The backup of settings and data at `now`.
pub open spec fn backup_of<M>(settings: SettingsView, data: DataView<M>, now: i64) -> BackupView<M> {
    BackupView {
        kind: BACKUP_KIND@,
        version: BACKUP_VERSION,
        exported_at: now,
        settings,
        data,
    }
}

/// The backup of what the plugin holds at `now`.
pub fn backup_at<M: Copy>(state: &AppState<M>, now: i64) -> (file: BackupFile<M>)
    ensures
        file@ == backup_of(state.settings@, state.data@, now),
        state.data.wf() ==> file.data.wf() && file.data.usage() == state.data.usage(),
{
    BackupFile {
        kind: BACKUP_KIND.to_owned(),
        version: BACKUP_VERSION,
        exported_at: now,
        settings: state.settings.copy(),
        data: state.data.copy(),
    }
}

/// What is reported where a backup cannot be written down.
pub fn write_failure(cause: &str) -> (text: String)
    ensures
        text@ == "序列化备份失败: "@ + cause@,
{
    let mut text = "序列化备份失败: ".to_owned();
    text.append(cause);
    text
}

/// What is reported where a file is no JSON, or is not laid out as a backup.
pub fn read_failure(cause: &str) -> (text: String)
    ensures
        text@ == "备份文件不是有效 JSON: "@ + cause@,
{
    let mut text = "备份文件不是有效 JSON: ".to_owned();
    text.append(cause);
    text
}

/// What is wrong with a file that is laid out as a backup, if anything: its kind comes first.
pub open spec fn backup_fault(kind: Seq<char>, version: u32) -> Option<Seq<char>> {
    if kind != BACKUP_KIND@ {
        Some("不是本插件的备份文件(kind="@ + kind + ")"@)
    } else if version != BACKUP_VERSION {
        Some(
            "备份版本不受支持: "@ + digits(version as nat) + " (当前支持 "@ + digits(
                BACKUP_VERSION as nat,
            ) + ")"@,
        )
    } else {
        None
    }
}

/// The settings with the package that used to be the default replaced by the present one.
pub open spec fn migrated(
    settings: SettingsView,
    legacy_pkg: Seq<char>,
    default_pkg: Seq<char>,
) -> SettingsView {
    if settings.push_pkg == legacy_pkg {
        SettingsView { push_pkg: default_pkg, ..settings }
    } else {
        settings
    }
}

/// What restoring a backup brings: settings and data, or what is wrong with the backup.
pub open spec fn restored<M>(
    file: BackupView<M>,
    legacy_pkg: Seq<char>,
    default_pkg: Seq<char>,
) -> Result<(SettingsView, DataView<M>), Seq<char>> {
    match backup_fault(file.kind, file.version) {
        Some(fault) => Err(fault),
        None => Ok((migrated(file.settings, legacy_pkg, default_pkg), file.data)),
    }
}

fn find_fault(kind: &str, version: u32) -> (fault: Option<String>)
    ensures
        crate::text::option_text(fault) == backup_fault(kind@, version),
{
    if !text_eq(kind, BACKUP_KIND) {
        let mut text = "不是本插件的备份文件(kind=".to_owned();
        text.append(kind);
        text.append(")");
        return Some(text);
    }
    if version != BACKUP_VERSION {
        let mut text = "备份版本不受支持: ".to_owned();
        text.append(u64_text(version as u64).as_str());
        text.append(" (当前支持 ");
        text.append(u64_text(BACKUP_VERSION as u64).as_str());
        text.append(")");
        return Some(text);
    }
    None
}

/// Puts a backup's settings and data in the place of those held, and forgets what was pushed
/// last, so that the next push is not skipped. A backup with a fault changes nothing.
pub fn apply_backup<M>(
    state: &mut AppState<M>,
    file: BackupFile<M>,
    legacy_pkg: &str,
    default_pkg: &str,
) -> (r: Result<(), String>)
    ensures
        match restored(file@, legacy_pkg@, default_pkg@) {
            Err(fault) => r is Err && r->Err_0@ == fault && *final(state) == *old(state),
            Ok((settings, data)) => {
                &&& r is Ok
                &&& final(state).settings@ == settings
                &&& final(state).data@ == data
                &&& final(state).data == file.data
                &&& final(state).pushed.at == old(state).pushed.at
                &&& final(state).pushed.signature is None
                &&& final(state).pushed.device is None
                &&& final(state).link == old(state).link
                &&& final(state).last_interconnect_at == old(state).last_interconnect_at
                &&& final(state).tz_offset_min == old(state).tz_offset_min
            },
        },
{
    if let Some(fault) = find_fault(file.kind.as_str(), file.version) {
        return Err(fault);
    }
    let mut settings = file.settings;
    if text_eq(settings.push_pkg.as_str(), legacy_pkg) {
        settings.push_pkg = default_pkg.to_owned();
    }
    state.settings = settings;
    state.data = file.data;
    state.pushed.signature = None;
    state.pushed.device = None;
    Ok(())
}

/// What the user reads behind a backup that was restored.
pub open spec fn summary_text(days: nat, has_balance: bool) -> Seq<char> {
    "备份已恢复: "@ + digits(days) + " 天用量 · 余额"@ + if has_balance {
        "有"@
    } else {
        "无"@
    }
}

/// What the user reads behind a backup that was restored.
pub fn restore_summary<M>(data: &DataFile<M>) -> (text: String)
    ensures
        text@ == summary_text(data@.days.len(), data@.balance is Some),
{
    let mut text = "备份已恢复: ".to_owned();
    text.append(usize_text(data.days.len()).as_str());
    text.append(" 天用量 · 余额");
    if data.balance.is_some() {
        text.append("有");
    } else {
        text.append("无");
    }
    text
}

/// A backup brings back the data that were held when it was made, and the settings too, but for
/// a package that used to be the default.
pub proof fn law_backup_round_trip<M>(
    settings: SettingsView,
    data: DataView<M>,
    now: i64,
    legacy_pkg: Seq<char>,
    default_pkg: Seq<char>,
)
    ensures
        restored(backup_of(settings, data, now), legacy_pkg, default_pkg) == Ok::<
            (SettingsView, DataView<M>),
            Seq<char>,
        >((migrated(settings, legacy_pkg, default_pkg), data)),
        settings.push_pkg != legacy_pkg ==> migrated(settings, legacy_pkg, default_pkg) == settings,
{
}

/// Replacing the old default package a second time changes nothing.
pub proof fn law_migration_settles(
    settings: SettingsView,
    legacy_pkg: Seq<char>,
    default_pkg: Seq<char>,
)
    ensures
        migrated(migrated(settings, legacy_pkg, default_pkg), legacy_pkg, default_pkg) == migrated(
            settings,
            legacy_pkg,
            default_pkg,
        ),
{
}

} // verus!
