use dsboard::backup::{
    apply_backup, backup_at, read_failure, restore_summary, write_failure, BackupFile, BACKUP_KIND,
    BACKUP_VERSION,
};
use dsboard::state::{
    AppState, BalanceInfo, DataFile, DayModelUsage, DeviceLink, PushRecord, Settings,
};

fn settings(pkg: &str) -> Settings {
    Settings {
        api_key: "key".to_string(),
        platform_token: "token".to_string(),
        base_url: "https://api.deepseek.com".to_string(),
        platform_base: "https://platform.deepseek.com".to_string(),
        provider: "deepseek".to_string(),
        push_pkg: pkg.to_string(),
        push_interval_secs: 60,
        balance_interval_secs: 60,
        export_interval_secs: 60,
    }
}

fn state(pkg: &str) -> AppState<f64> {
    let mut data = DataFile::new();
    data.upsert_daily(
        "2026-07-13",
        DayModelUsage {
            model: "m".to_string(),
            calls: 1,
            hit_tokens: 2,
            miss_tokens: 3,
            output_tokens: 4,
            cost: 5.5,
        },
    );
    data.balance = Some(BalanceInfo {
        total: 1.5,
        top_up: None,
        granted: Some(0.5),
        currency: "CNY".to_string(),
        checked_at: 9,
    });
    data.last_import_at = Some(8);
    AppState {
        settings: settings(pkg),
        data,
        link: DeviceLink { addr: Some("addr".to_string()), recv_registered: true },
        pushed: PushRecord {
            at: Some(5),
            signature: Some("sig".to_string()),
            device: Some("addr".to_string()),
        },
        last_interconnect_at: Some(3),
        tz_offset_min: 480,
    }
}

fn empty() -> AppState<f64> {
    AppState { settings: settings("other"), data: DataFile::new(), ..state("other") }
}

#[test]
fn backups_bring_settings_and_data_back() {
    let from = state("pkg");
    let file = backup_at(&from, 1_754_000_000);
    assert_eq!(file.kind, BACKUP_KIND);
    assert_eq!(file.version, BACKUP_VERSION);
    assert_eq!(file.exported_at, 1_754_000_000);
    let mut to = empty();
    assert_eq!(apply_backup(&mut to, file, "old.pkg", "new.pkg"), Ok(()));
    assert_eq!(to.settings, from.settings);
    assert_eq!(to.data, from.data);
    assert_eq!(to.pushed, PushRecord { at: Some(5), signature: None, device: None });
    assert_eq!(to.link, from.link);
    assert_eq!(to.last_interconnect_at, Some(3));
    assert_eq!(to.tz_offset_min, 480);
    assert_eq!(restore_summary(&to.data), "备份已恢复: 1 天用量 · 余额有");
}

#[test]
fn old_default_packages_are_replaced() {
    let mut to = empty();
    let file = backup_at(&state("old.pkg"), 0);
    assert_eq!(apply_backup(&mut to, file, "old.pkg", "new.pkg"), Ok(()));
    assert_eq!(to.settings, settings("new.pkg"));
}

#[test]
fn files_that_are_no_backups_change_nothing() {
    let refused = |kind: &str, version: u32| {
        let mut to = empty();
        let file = BackupFile { kind: kind.to_string(), version, ..backup_at(&state("pkg"), 0) };
        let r = apply_backup(&mut to, file, "old.pkg", "new.pkg");
        assert_eq!(to, empty());
        r.unwrap_err()
    };
    assert_eq!(refused("something", 1), "不是本插件的备份文件(kind=something)");
    assert_eq!(refused("something", 2), "不是本插件的备份文件(kind=something)");
    assert_eq!(refused(BACKUP_KIND, 2), "备份版本不受支持: 2 (当前支持 1)");
}

#[test]
fn backup_texts() {
    assert_eq!(write_failure("e"), "序列化备份失败: e");
    assert_eq!(read_failure("e"), "备份文件不是有效 JSON: e");
    assert_eq!(restore_summary(&DataFile::<f64>::new()), "备份已恢复: 0 天用量 · 余额无");
}

#[test]
fn copies_are_equal() {
    let s = state("pkg");
    assert_eq!(s.data.copy(), s.data);
    assert_eq!(s.settings.copy(), s.settings);
}
