//! Laws of backups: restoring one brings back what was put into it.
use vstd::prelude::*;

use crate::backup::{backup_of, restored, summary_text, BackupView};
use crate::state::{DataView, SettingsView};
use crate::text::digits;

verus! {

/// Restoring keeps the data and every setting but the package, which changes only from the old
/// default to the present one.
pub proof fn law_restoring_keeps_settings_and_data<M>(
    file: BackupView<M>,
    legacy_pkg: Seq<char>,
    default_pkg: Seq<char>,
)
    ensures
        restored(file, legacy_pkg, default_pkg) matches Ok((s, data)) ==> {
            &&& data == file.data
            &&& s.api_key == file.settings.api_key
            &&& s.platform_token == file.settings.platform_token
            &&& s.base_url == file.settings.base_url
            &&& s.platform_base == file.settings.platform_base
            &&& s.provider == file.settings.provider
            &&& s.push_interval_secs == file.settings.push_interval_secs
            &&& s.balance_interval_secs == file.settings.balance_interval_secs
            &&& s.export_interval_secs == file.settings.export_interval_secs
            &&& file.settings.push_pkg == legacy_pkg ==> s.push_pkg == default_pkg
            &&& file.settings.push_pkg != legacy_pkg ==> s.push_pkg == file.settings.push_pkg
        },
{
}

/// A file is restored exactly where it is a backup of this plugin in the present version. Another
/// kind is reported before another version, each with what the file holds.
pub proof fn law_which_files_are_restored<M>(
    file: BackupView<M>,
    legacy_pkg: Seq<char>,
    default_pkg: Seq<char>,
)
    ensures
        restored(file, legacy_pkg, default_pkg) is Ok <==> file.kind == "dsboard-backup"@
            && file.version == 1,
        file.kind != "dsboard-backup"@ ==> restored(file, legacy_pkg, default_pkg) == Err::<
            (SettingsView, DataView<M>),
            Seq<char>,
        >("不是本插件的备份文件(kind="@ + file.kind + ")"@),
        file.kind == "dsboard-backup"@ && file.version != 1 ==> restored(
            file,
            legacy_pkg,
            default_pkg,
        ) == Err::<(SettingsView, DataView<M>), Seq<char>>(
            "备份版本不受支持: "@ + digits(file.version as nat) + " (当前支持 "@ + digits(1) + ")"@,
        ),
{
}

/// A backup holds the settings and data that it was made of, and the time at which it was made.
pub proof fn law_backup_holds<M>(settings: SettingsView, data: DataView<M>, now: i64)
    ensures
        ({
            let file = backup_of(settings, data, now);
            &&& file.kind == "dsboard-backup"@
            &&& file.version == 1
            &&& file.exported_at == now
            &&& file.settings == settings
            &&& file.data == data
        }),
{
}

/// What is read behind a restored backup names the number of days and whether there is a balance.
pub proof fn law_restored_text(days: nat)
    ensures
        summary_text(days, true) == "备份已恢复: "@ + digits(days) + " 天用量 · 余额有"@,
        summary_text(days, false) == "备份已恢复: "@ + digits(days) + " 天用量 · 余额无"@,
{
    reveal_strlit(" 天用量 · 余额");
    reveal_strlit(" 天用量 · 余额有");
    reveal_strlit(" 天用量 · 余额无");
    reveal_strlit("有");
    reveal_strlit("无");
    let head = "备份已恢复: "@ + digits(days);
    assert(head + " 天用量 · 余额"@ + "有"@ =~= head + " 天用量 · 余额有"@);
    assert(head + " 天用量 · 余额"@ + "无"@ =~= head + " 天用量 · 余额无"@);
}

} // verus!
