use dsboard::backup::{apply_backup, backup_at};
use dsboard::engine::{
    backup_failed, backup_file_name, check_key, check_picked, check_token, event_action,
    note_balance, note_devices, note_export, note_registration, push_check, push_content, push_end, push_start,
    restore_status, startup_status, take_message, timer_plan, BalanceOutcome, EventAction,
    EventKind, ExportOutcome, PushJob, SaveAction, SaveEvent, SaveJob, CHUNK_BYTES,
};
use dsboard::state::{AppState, BalanceInfo, DataFile, DeviceLink, PushRecord, Settings};

fn settings(push: u64, balance: u64, export: u64) -> Settings {
    Settings {
        api_key: String::new(),
        platform_token: String::new(),
        base_url: String::new(),
        platform_base: String::new(),
        provider: "deepseek".to_string(),
        push_pkg: "com.band".to_string(),
        push_interval_secs: push,
        balance_interval_secs: balance,
        export_interval_secs: export,
    }
}

fn link(addr: Option<&str>, recv_registered: bool) -> DeviceLink {
    DeviceLink { addr: addr.map(|a| a.to_string()), recv_registered }
}

fn state(addr: Option<&str>) -> AppState<f64> {
    AppState {
        settings: settings(60, 60, 60),
        data: DataFile::new(),
        link: link(addr, false),
        pushed: PushRecord { at: None, signature: None, device: None },
        last_interconnect_at: None,
        tz_offset_min: 480,
    }
}

#[test]
fn startup_texts() {
    assert_eq!(startup_status(&link(None, true)), "插件已启动:未连接设备");
    assert_eq!(
        startup_status(&link(Some("a"), false)),
        "插件已启动:互联接收未注册成功(检查权限,housekeeping 会重试)"
    );
    assert_eq!(
        startup_status(&link(Some("a"), true)),
        "插件已启动:等待手环快应用打开并发送消息"
    );
}

#[test]
fn timers_by_the_settings() {
    assert_eq!(
        timer_plan(&settings(60, 30, 90)),
        vec![("push", 60_000), ("balance", 30_000), ("export", 90_000), ("housekeeping", 30_000)]
    );
    assert_eq!(
        timer_plan(&settings(10, u64::MAX, 0)),
        vec![("push", 10_000), ("balance", u64::MAX), ("housekeeping", 30_000)]
    );
}

#[test]
fn events_and_what_they_ask_for() {
    let timer = |payload: &str| event_action(EventKind::Timer, payload);
    assert_eq!(timer(r#"{"timerId":1,"kind":"interval","payload":"push"}"#), EventAction::Push);
    assert_eq!(timer(r#"{"payload":"balance"}"#), EventAction::Balance);
    assert_eq!(timer(r#"{"payload":"export"}"#), EventAction::Export);
    assert_eq!(timer(r#"{"payload":"housekeeping"}"#), EventAction::Housekeeping);
    assert_eq!(timer(r#"{"payload":"other"}"#), EventAction::Nothing);
    assert_eq!(timer(r#"{"payload":1}"#), EventAction::Nothing);
    assert_eq!(timer("push"), EventAction::Nothing);
    assert_eq!(event_action(EventKind::InterconnectMessage, ""), EventAction::Answer);
    assert_eq!(event_action(EventKind::Other, r#"{"payload":"push"}"#), EventAction::Nothing);
}

#[test]
fn messages_within_three_seconds_are_not_answered() {
    let mut last = None;
    assert!(take_message(&mut last, 100));
    assert_eq!(last, Some(100));
    assert!(!take_message(&mut last, 102));
    assert_eq!(last, Some(100));
    assert!(take_message(&mut last, 103));
    assert_eq!(last, Some(103));
    assert!(!take_message(&mut last, i64::MIN));
}

#[test]
fn devices_are_registered_once() {
    let mut l = link(None, false);
    let ab = vec!["a".to_string(), "b".to_string()];
    assert_eq!(note_devices(&mut l, &ab), Some("a".to_string()));
    note_registration(&mut l, false);
    assert_eq!(note_devices(&mut l, &ab), Some("a".to_string()));
    note_registration(&mut l, true);
    assert_eq!(l, link(Some("a"), true));
    assert_eq!(note_devices(&mut l, &ab), None);
    assert_eq!(note_devices(&mut l, &vec!["b".to_string()]), Some("b".to_string()));
    assert_eq!(l, link(Some("b"), false));
    assert_eq!(note_devices(&mut l, &vec![]), None);
    assert_eq!(l, link(None, false));
}

#[test]
fn pushes_without_a_device() {
    assert_eq!(
        push_start(&state(None), true, "sig".to_string(), 5),
        Err("未连接设备,跳过推送(请先在 AstroBox 连接手环)".to_string())
    );
}

#[test]
fn pushes_of_unchanged_data() {
    let mut s = state(Some("addr"));
    let job = push_start(&s, false, "sig".to_string(), 5).unwrap();
    assert_eq!(
        job,
        PushJob {
            addr: "addr".to_string(),
            pkg: "com.band".to_string(),
            signature: "sig".to_string(),
            size: 5
        }
    );
    let before = s.pushed.clone();
    assert_eq!(
        push_end(&mut s.pushed, job.clone(), false, 9),
        "推送失败:设备不在线/未安装快应用/未授权 interconnect"
    );
    assert_eq!(s.pushed, before);
    assert!(push_start(&s, false, "sig".to_string(), 5).is_ok());
    assert_eq!(push_end(&mut s.pushed, job, true, 9), "已推送快照 5 字节 → com.band");
    assert_eq!(s.pushed.at, Some(9));
    assert_eq!(
        push_start(&s, false, "sig".to_string(), 6),
        Err("快照无变化,跳过推送(6 字节)".to_string())
    );
    assert!(push_start(&s, true, "sig".to_string(), 6).is_ok());
    assert!(push_start(&s, false, "new".to_string(), 6).is_ok());
    s.link.addr = Some("other".to_string());
    assert!(push_start(&s, false, "sig".to_string(), 6).is_ok());
}

#[test]
fn pushes_to_a_band_without_the_app() {
    let job = push_start(&state(Some("addr")), true, "sig".to_string(), 5).unwrap();
    let apps = |names: &[&str]| Some(names.iter().map(|n| n.to_string()).collect::<Vec<String>>());
    assert_eq!(push_check(&job, &apps(&["x", "com.band"])), None);
    assert_eq!(push_check(&job, &None), None);
    let missing = "推送失败:手环未安装 com.band,请先通过 AstroBox 安装 vela 快应用";
    assert_eq!(push_check(&job, &apps(&["x"])), Some(missing.to_string()));
    assert_eq!(push_check(&job, &apps(&[])), Some(missing.to_string()));
}

#[test]
fn backups_are_written_whole() {
    for size in [0, 1, CHUNK_BYTES, CHUNK_BYTES + 1, 3 * CHUNK_BYTES] {
        let bytes: Vec<u8> = (0..size).map(|i| (i % 251) as u8).collect();
        let mut job = SaveJob::new(bytes.clone());
        let mut file: Vec<u8> = Vec::new();
        let mut pieces: Vec<usize> = Vec::new();
        let mut action = job.step(SaveEvent::Opened(true));
        while let SaveAction::Write(piece) = &action {
            pieces.push(piece.len());
            file.extend_from_slice(piece);
            action = job.step(SaveEvent::Written(true));
        }
        assert_eq!(action, SaveAction::Finish);
        assert_eq!(file, bytes);
        let whole: Vec<usize> = bytes.chunks(64 * 1024).map(|c| c.len()).collect();
        assert_eq!(pieces, whole);
        assert_eq!(
            job.step(SaveEvent::Finished(true)),
            SaveAction::Stop(
                false,
                format!("备份完成: {} 字节 · 更新插件后请用“从备份恢复”导入", size)
            )
        );
    }
}

#[test]
fn backups_that_cannot_be_written() {
    let mut job = SaveJob::new(vec![1, 2]);
    assert_eq!(
        job.step(SaveEvent::Opened(false)),
        SaveAction::Stop(false, "备份已取消或无法打开保存窗口".to_string())
    );
    assert_eq!(
        job.step(SaveEvent::Written(false)),
        SaveAction::Stop(true, "备份失败:写入文件出错".to_string())
    );
    assert_eq!(
        job.step(SaveEvent::Finished(false)),
        SaveAction::Stop(true, "备份失败:无法完成保存".to_string())
    );
    assert_eq!(backup_failed("e"), "备份失败: e");
    assert_eq!(backup_file_name(1_754_000_000), "deepseek-miband-backup-1754000000.json");
}

#[test]
fn picked_files() {
    assert_eq!(check_picked("", &[]), Some("未选择备份文件(已取消)"));
    assert_eq!(check_picked("a.json", &[]), Some("读取备份文件失败(文件为空或无法读取)"));
    assert_eq!(check_picked("a.json", &[1]), None);
    assert_eq!(check_picked("", &[1]), None);
    assert_eq!(restore_status(Ok("好".to_string()), "a.json"), "好(来自 a.json)");
    assert_eq!(restore_status(Err("e".to_string()), "a.json"), "恢复失败: e");
}

#[test]
fn balances_are_kept() {
    let mut data: DataFile<f64> = DataFile::new();
    assert_eq!(check_key(""), Some("未设置 API Key(插件页面输入后保存)"));
    assert_eq!(check_key("k"), None);
    let info = BalanceInfo {
        total: 1.5,
        top_up: None,
        granted: None,
        currency: "CNY".to_string(),
        checked_at: 1,
    };
    assert_eq!(
        note_balance(&mut data, BalanceOutcome::Balance(info.clone(), "1.50".to_string())),
        "余额已更新: ¥1.50"
    );
    assert_eq!(data.balance, Some(info.clone()));
    assert_eq!(
        note_balance(&mut data, BalanceOutcome::Unavailable),
        "余额接口不可用(检查 base_url / API Key)"
    );
    assert_eq!(
        note_balance(&mut data, BalanceOutcome::Failed("e".to_string())),
        "余额查询失败: e"
    );
    assert_eq!(data.balance, Some(info));
}

#[test]
fn imports_are_noted() {
    let mut data: DataFile<f64> = DataFile::new();
    assert_eq!(check_token(""), Some("未设置平台 token(浏览器 F12 复制,插件页面输入)"));
    assert_eq!(check_token("t"), None);
    assert_eq!(
        note_export(&mut data, ExportOutcome::BadTables("e".to_string()), 7),
        "CSV 导入失败: e"
    );
    assert_eq!(note_export(&mut data, ExportOutcome::Failed("e".to_string()), 7), "导出失败: e");
    assert_eq!(data.last_import_at, None);
    assert_eq!(
        note_export(&mut data, ExportOutcome::Imported(3, 2, 1), 7),
        "用量导入成功: 3 天 · 2 模型 · 替换 1 行"
    );
    assert_eq!(data.last_import_at, Some(7));
}

#[test]
fn pushes_send_the_snapshot_of_the_state() {
    let s = state(Some("addr"));
    let (snap, signature) = push_content(&s, 1_754_000_000).unwrap();
    assert_eq!(snap.provider, "deepseek");
    assert_eq!(snap.cache.date, "2025-08-01");
    assert_eq!(snap.generated_at, 1_754_000_000);
    assert_eq!(signature.cache, snap.cache);
    let (_, later) = push_content(&s, 1_754_000_060).unwrap();
    assert_eq!(signature, later);
}

fn written(s: &AppState<f64>, now: i64) -> String {
    format!("{:?}", push_content(s, now).unwrap().1)
}

#[test]
fn unchanged_data_are_pushed_once_a_day() {
    let mut s = state(Some("addr"));
    let now = 1_754_000_000;
    let job = push_start(&s, false, written(&s, now), 5).unwrap();
    push_end(&mut s.pushed, job, true, now);
    let remembered = s.pushed.clone();
    s.data.last_import_at = Some(now);
    assert!(push_start(&s, false, written(&s, now + 60), 7).is_err());
    assert_eq!(s.pushed, remembered);
    assert!(push_start(&s, false, written(&s, now + 86_400), 5).is_ok());
    let mut moved = s.clone();
    moved.link.addr = Some("other".to_string());
    assert!(push_start(&moved, false, written(&moved, now + 60), 5).is_ok());
    s.settings.provider = "another".to_string();
    assert!(push_start(&s, false, written(&s, now + 60), 5).is_ok());
}

#[test]
fn restored_backups_are_pushed() {
    let mut s = state(Some("addr"));
    let job = push_start(&s, false, "sig".to_string(), 5).unwrap();
    push_end(&mut s.pushed, job, true, 9);
    assert!(push_start(&s, false, "sig".to_string(), 5).is_err());
    let file = backup_at(&s, 10);
    assert_eq!(apply_backup(&mut s, file, "old", "new"), Ok(()));
    assert!(push_start(&s, false, "sig".to_string(), 5).is_ok());
}
