use dsboard::snapshot::{snapshot_at, CacheSummary, HitRate, ModelUsage, Snapshot};
use dsboard::state::{BalanceInfo, DataFile, Settings};
use dsboard::ui::{
    btn, build_card, build_page, button_style, fmt_ago, fmt_epoch, handle_ui_event, hint, input, p,
    payload_value, render_card, render_page, rerender, token_unit, type_in, CardTexts, ElementIds,
    ElementKind, Prop, Surface, TokenUnit, UiAction, UiEvent, BTN_BACKUP, BTN_BALANCE_NOW,
    BTN_EXPORT_NOW, BTN_HOUSEKEEPING, BTN_PUSH_NOW, BTN_RESTORE, BTN_SAVE_SETTINGS, INPUT_API_KEY,
    INPUT_BALANCE_INTERVAL, INPUT_EXPORT_INTERVAL, INPUT_PLATFORM_TOKEN, INPUT_PUSH_INTERVAL,
    INPUT_PUSH_PKG,
};

#[test]
fn payload_value_extracts_input_text() {
    let p = r#"{"type":"input","value":"sk-abc123","checked":false}"#;
    assert_eq!(payload_value(p), "sk-abc123");
}

#[test]
fn payload_value_falls_back_to_raw() {
    assert_eq!(payload_value("plain-text"), "plain-text");
    assert_eq!(
        payload_value(r#"{"type":"click","clientX":255,"value":""}"#),
        ""
    );
}

#[test]
fn payloads_with_other_values_stay_as_they_are() {
    assert_eq!(payload_value(r#"{"value":5}"#), r#"{"value":5}"#);
    assert_eq!(payload_value("5"), "5");
    assert_eq!(payload_value(r#"{"value":"余额"}"#), "余额");
}

fn settings() -> Settings {
    Settings {
        api_key: "key".to_string(),
        platform_token: "token".to_string(),
        base_url: String::new(),
        platform_base: String::new(),
        provider: "deepseek".to_string(),
        push_pkg: "pkg".to_string(),
        push_interval_secs: 60,
        balance_interval_secs: 61,
        export_interval_secs: 0,
    }
}

#[test]
fn typing_goes_into_the_settings() {
    let typed = |id: &str, value: &str| {
        let mut s = settings();
        type_in(&mut s, id, value.to_string());
        s
    };
    assert_eq!(typed(INPUT_API_KEY, "x").api_key, "x");
    assert_eq!(typed(INPUT_PLATFORM_TOKEN, "x").platform_token, "x");
    assert_eq!(typed(INPUT_PUSH_PKG, "x").push_pkg, "x");
    assert_eq!(typed(INPUT_PUSH_INTERVAL, "9").push_interval_secs, 10);
    assert_eq!(typed(INPUT_PUSH_INTERVAL, "11").push_interval_secs, 11);
    assert_eq!(typed(INPUT_BALANCE_INTERVAL, "0").balance_interval_secs, 30);
    assert_eq!(typed(INPUT_EXPORT_INTERVAL, "5").export_interval_secs, 5);
    assert_eq!(typed(INPUT_PUSH_INTERVAL, "soon"), settings());
    assert_eq!(typed(INPUT_EXPORT_INTERVAL, "-1"), settings());
    assert_eq!(typed("something", "x"), settings());
}

#[test]
fn events_of_the_elements() {
    let mut s = settings();
    let typed = handle_ui_event(&mut s, INPUT_PUSH_INTERVAL, UiEvent::Input, r#"{"value":"90"}"#);
    assert_eq!(typed, UiAction::Nothing);
    assert_eq!(s.push_interval_secs, 90);
    let before = s.clone();
    for (id, action) in [
        (BTN_SAVE_SETTINGS, UiAction::SaveSettings),
        (BTN_BALANCE_NOW, UiAction::Balance),
        (BTN_EXPORT_NOW, UiAction::Export),
        (BTN_PUSH_NOW, UiAction::ForcePush),
        (BTN_HOUSEKEEPING, UiAction::RefreshDevice),
        (BTN_BACKUP, UiAction::Backup),
        (BTN_RESTORE, UiAction::Restore),
        ("something", UiAction::Nothing),
        (INPUT_API_KEY, UiAction::Nothing),
    ] {
        assert_eq!(handle_ui_event(&mut s, id, UiEvent::Click, "{}"), action);
        assert_eq!(handle_ui_event(&mut s, id, UiEvent::Other, "{}"), UiAction::Nothing);
    }
    assert_eq!(s, before);
}

#[test]
fn elements_and_their_looks() {
    assert_eq!(p("x").props, vec![]);
    assert_eq!(hint("x").props, vec![Prop::Size(12), Prop::Margin(2)]);
    assert_eq!(button_style(BTN_BACKUP), ("#F97316", "#FFFFFF"));
    assert_eq!(button_style(BTN_EXPORT_NOW), ("#22C55E", "#062D1A"));
    assert_eq!(button_style(BTN_HOUSEKEEPING), ("#38BDF8", "#082F49"));
    assert_eq!(button_style("something"), ("#11182C", "#FFFFFF"));
    let b = btn("推送", BTN_PUSH_NOW);
    assert_eq!(b.kind, ElementKind::Button);
    assert_eq!(b.text, "推送");
    assert_eq!(
        b.props,
        vec![
            Prop::Padding(10),
            Prop::Margin(4),
            Prop::Radius(10),
            Prop::Background("#38BDF8"),
            Prop::TextColor("#082F49"),
            Prop::WidthFull,
            Prop::On(UiEvent::Click, BTN_PUSH_NOW),
        ]
    );
    let i = input(INPUT_API_KEY, "v");
    assert_eq!((i.kind, i.text.as_str()), (ElementKind::Input, "v"));
    assert_eq!(i.props[2], Prop::Border(1, "#3A4A6B"));
    assert_eq!(i.props[4], Prop::On(UiEvent::Input, INPUT_API_KEY));
}

fn snap() -> Snapshot<String> {
    Snapshot {
        v: 1,
        generated_at: 1000,
        provider: "deepseek".to_string(),
        balance: Some(BalanceInfo {
            total: "128.47".to_string(),
            top_up: Some("118.00".to_string()),
            granted: None,
            currency: "CNY".to_string(),
            checked_at: 1000,
        }),
        cache: CacheSummary {
            date: "2026-07-13".to_string(),
            hit_rate: Some(HitRate { hits: 3, total: 4 }),
            hit_tokens: 3,
            miss_tokens: 1,
        },
        models: vec![ModelUsage {
            model: "pro".to_string(),
            calls: 666,
            hit_tokens: 3,
            miss_tokens: 1,
            output_tokens: 352_921,
            cost: "10.41".to_string(),
        }],
        freshness: "current",
    }
}

fn shown(outputs: &[&str]) -> CardTexts {
    CardTexts {
        hit_rate: "75.0".to_string(),
        hit_tokens: "3".to_string(),
        miss_tokens: "1".to_string(),
        outputs: outputs.iter().map(|o| o.to_string()).collect(),
    }
}

#[test]
fn cards_of_a_snapshot() {
    let card = build_card(&snap(), &shown(&["352.9K"]), true, Some(910), 1000, "好");
    let lines: Vec<&str> = card.children.iter().map(|e| e.text.as_str()).collect();
    assert_eq!(
        lines,
        vec![
            "已连接 · 自动推送中",
            "余额 ¥128.47 (充值 118.00 / 赠送 0.00) · CNY",
            "今日命中率 75.0% (命中 3 / 未命中 1) · 2026-07-13",
            "pro · 666 次 · 输出 352.9K · ¥10.41",
            "新鲜度 current · 上次推送 1m 前",
            "好",
            "立即推送",
            "查余额",
            "导出导入",
        ]
    );
    assert_eq!(card.props, vec![Prop::Flex, Prop::Column, Prop::Padding(12)]);
    assert_eq!(card.children[0].props[2], Prop::Background("#163B2C"));
}

#[test]
fn cards_without_anything_to_show() {
    let data: DataFile<String> = DataFile::new();
    let mut bare = snap();
    bare.balance = data.balance;
    bare.cache.hit_rate = None;
    bare.models = vec![];
    let card = build_card(&bare, &shown(&[]), false, None, 1000, "");
    let lines: Vec<&str> = card.children.iter().map(|e| e.text.as_str()).collect();
    assert_eq!(lines[0], "未连接设备");
    assert_eq!(lines[1], "余额 -- / 接口不可用或未配置");
    assert_eq!(lines[2], "今日暂无调用 · 2026-07-13");
    assert_eq!(lines[3], "新鲜度 current · 尚未推送");
    assert_eq!(card.children[0].props[3], Prop::TextColor("#F0B7B7"));
    let empty: DataFile<u8> = DataFile::new();
    assert_eq!(snapshot_at(&empty, "p", 0, 0).freshness, "unavailable");
}

#[test]
fn pages_show_the_settings() {
    let page = build_page(&settings(), "就绪", 1_754_000_000, 480);
    let lines: Vec<&str> = page.children.iter().map(|e| e.text.as_str()).collect();
    assert_eq!(lines.len(), 21);
    assert_eq!(lines[1], "key");
    assert_eq!(lines[3], "token");
    assert_eq!(lines[5], "pkg");
    assert_eq!(lines[7], "60");
    assert_eq!(lines[9], "61");
    assert_eq!(lines[11], "0");
    assert_eq!(lines[12], "保存设置");
    assert_eq!(lines[20], "状态: 就绪 (06:13:20)");
    assert_eq!(page.props[2], Prop::Padding(16));
    let page = build_page(&settings(), "", 0, 480);
    assert_eq!(page.children[20].text, "状态:  (-)");
}

#[test]
fn typing_what_the_page_shows_changes_nothing() {
    let page = build_page(&settings(), "", 0, 0);
    let mut inputs = 0;
    for e in &page.children {
        if e.kind == ElementKind::Input {
            let mut s = settings();
            match e.props.last() {
                Some(Prop::On(UiEvent::Input, id)) => type_in(&mut s, id, e.text.clone()),
                _ => panic!("no event"),
            }
            assert_eq!(s, settings());
            inputs += 1;
        }
    }
    assert_eq!(inputs, 6);
}

#[test]
fn surfaces_are_remembered() {
    let mut ids = ElementIds { page: None, card: None };
    assert_eq!(rerender(&ids), vec![]);
    let card = render_card(&mut ids, "c", &snap(), &shown(&["1"]), true, None, 1, "s");
    assert_eq!(card, build_card(&snap(), &shown(&["1"]), true, None, 1, "s"));
    assert_eq!(rerender(&ids), vec![(Surface::Card, "c".to_string())]);
    let page = render_page(&mut ids, "p", &settings(), "s", 1, 0);
    assert_eq!(page, build_page(&settings(), "s", 1, 0));
    assert_eq!(
        rerender(&ids),
        vec![(Surface::Page, "p".to_string()), (Surface::Card, "c".to_string())]
    );
}

#[test]
fn times_as_they_are_shown() {
    assert_eq!(fmt_ago(-5), "-5s");
    assert_eq!(fmt_ago(59), "59s");
    assert_eq!(fmt_ago(60), "1m");
    assert_eq!(fmt_ago(3599), "59m");
    assert_eq!(fmt_ago(90_000), "25h");
    assert_eq!(fmt_epoch(0, 0), "00:00:00");
    assert_eq!(fmt_epoch(-1, 0), "23:59:59");
    assert_eq!(fmt_epoch(3661, -60), "00:01:01");
    assert_eq!(fmt_epoch(i64::MAX, i32::MAX).len(), 8);
}

#[test]
fn units_of_tokens() {
    assert_eq!(token_unit(999), TokenUnit::One);
    assert_eq!(token_unit(1_000), TokenUnit::Thousand);
    assert_eq!(token_unit(999_999), TokenUnit::Thousand);
    assert_eq!(token_unit(1_000_000), TokenUnit::Million);
}
