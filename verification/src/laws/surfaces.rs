//! Laws of the card, the settings page and their events.
use vstd::prelude::*;

use crate::json::JsonView;
use crate::number::u64_of;
use crate::snapshot::SnapshotView;
use crate::state::SettingsView;
use crate::text::{digits, int_text, padded, texts};
use crate::ui::{
    ago_text, badge_view, btn_view, card_view, click_asks, clock_text, drawn_surfaces, hint_view,
    input_view, lemma_input_ids_differ, p_view, page_view, settings_after, status_line, style_of,
    value_in, CardTexts, ElementKind, ElementView, PropView, Surface, UiAction, UiEvent,
};

verus! {

/// What is typed into an input changes the setting of that input and no other. An interval becomes
/// the number that is typed, or the least one where that is below it, and stays where no number is
/// typed.
pub proof fn law_typing_changes_one_setting(before: SettingsView, id: Seq<char>, value: Seq<char>)
    ensures
        ({
            let after = settings_after(before, id, value);
            &&& after.api_key == if id == "input-api-key"@ {
                value
            } else {
                before.api_key
            }
            &&& after.platform_token == if id == "input-platform-token"@ {
                value
            } else {
                before.platform_token
            }
            &&& after.push_pkg == if id == "input-push-pkg"@ {
                value
            } else {
                before.push_pkg
            }
            &&& after.base_url == before.base_url
            &&& after.platform_base == before.platform_base
            &&& after.provider == before.provider
            &&& id != "input-push-interval"@ || u64_of(value) is None ==> after.push_interval_secs
                == before.push_interval_secs
            &&& id != "input-balance-interval"@ || u64_of(value) is None
                ==> after.balance_interval_secs == before.balance_interval_secs
            &&& id != "input-export-interval"@ || u64_of(value) is None
                ==> after.export_interval_secs == before.export_interval_secs
            &&& u64_of(value) matches Some(v) ==> {
                &&& id == "input-push-interval"@ ==> after.push_interval_secs == if v < 10 {
                    10
                } else {
                    v
                }
                &&& id == "input-balance-interval"@ ==> after.balance_interval_secs == if v < 30 {
                    30
                } else {
                    v
                }
                &&& id == "input-export-interval"@ ==> after.export_interval_secs == v
            }
        }),
{
    lemma_input_ids_differ();
}

/// What an event's payload carries is its text `value`, also an empty one; without such a text it
/// is the payload itself.
pub proof fn law_payloads(v: JsonView, text: Seq<char>, payload: Seq<char>)
    ensures
        v.field("value"@) == Some(JsonView::Text(text)) ==> value_in(Some(v), payload) == text,
        !(v.field("value"@) matches Some(JsonView::Text(t))) ==> value_in(Some(v), payload)
            == payload,
        value_in(None, payload) == payload,
{
}

proof fn lemma_button_ids()
    ensures
        "btn-save-settings"@.len() == 17,
        "btn-balance-now"@.len() == 15,
        "btn-export-now"@.len() == 14,
        "btn-push-now"@.len() == 12,
        "btn-housekeeping"@.len() == 16,
        "btn-backup"@.len() == 10,
        "btn-restore"@.len() == 11,
{
    reveal_strlit("btn-save-settings");
    reveal_strlit("btn-balance-now");
    reveal_strlit("btn-export-now");
    reveal_strlit("btn-push-now");
    reveal_strlit("btn-housekeeping");
    reveal_strlit("btn-backup");
    reveal_strlit("btn-restore");
}

/// Each button asks for one thing, and nothing else asks for it.
pub proof fn law_clicks(id: Seq<char>)
    ensures
        click_asks(id) == UiAction::SaveSettings <==> id == "btn-save-settings"@,
        click_asks(id) == UiAction::Balance <==> id == "btn-balance-now"@,
        click_asks(id) == UiAction::Export <==> id == "btn-export-now"@,
        click_asks(id) == UiAction::ForcePush <==> id == "btn-push-now"@,
        click_asks(id) == UiAction::RefreshDevice <==> id == "btn-housekeeping"@,
        click_asks(id) == UiAction::Backup <==> id == "btn-backup"@,
        click_asks(id) == UiAction::Restore <==> id == "btn-restore"@,
{
    lemma_button_ids();
}

/// Buttons that keep something are orange, those that fetch green, those that concern the device
/// light blue; any other is dark.
pub proof fn law_button_colors(id: Seq<char>)
    ensures
        style_of("btn-save-settings"@) == ("#F97316"@, "#FFFFFF"@),
        style_of("btn-backup"@) == ("#F97316"@, "#FFFFFF"@),
        style_of("btn-restore"@) == ("#F97316"@, "#FFFFFF"@),
        style_of("btn-balance-now"@) == ("#22C55E"@, "#062D1A"@),
        style_of("btn-export-now"@) == ("#22C55E"@, "#062D1A"@),
        style_of("btn-push-now"@) == ("#38BDF8"@, "#082F49"@),
        style_of("btn-housekeeping"@) == ("#38BDF8"@, "#082F49"@),
        click_asks(id) == UiAction::Nothing ==> style_of(id) == ("#11182C"@, "#FFFFFF"@),
{
    lemma_button_ids();
}

/// What a click on an element asks for.
pub open spec fn click_on(e: ElementView) -> UiAction {
    match e.props.last() {
        PropView::On(UiEvent::Click, id) => click_asks(id),
        _ => UiAction::Nothing,
    }
}

/// An element shows its text; a button reports clicks and an input what is typed, under its own id,
/// both over the whole width.
pub proof fn law_elements(text: Seq<char>, id: Seq<char>)
    ensures
        p_view(text) == (ElementView { kind: ElementKind::P, text, props: Seq::empty() }),
        hint_view(text).kind == ElementKind::P && hint_view(text).text == text,
        hint_view(text).props == seq![PropView::Size(12), PropView::Margin(2)],
        btn_view(text, id).kind == ElementKind::Button && btn_view(text, id).text == text,
        btn_view(text, id).props == seq![
            PropView::Padding(10),
            PropView::Margin(4),
            PropView::Radius(10),
            PropView::Background(style_of(id).0),
            PropView::TextColor(style_of(id).1),
            PropView::WidthFull,
            PropView::On(UiEvent::Click, id),
        ],
        click_on(btn_view(text, id)) == click_asks(id),
        input_view(id, text).kind == ElementKind::Input && input_view(id, text).text == text,
        input_view(id, text).props == seq![
            PropView::Padding(8),
            PropView::Radius(8),
            PropView::Border(1, "#3A4A6B"@),
            PropView::WidthFull,
            PropView::On(UiEvent::Input, id),
        ],
{
}

/// The card has a line for each model between the lines about balance and cache and those about
/// freshness and status, then three buttons.
pub proof fn law_card(
    snap: SnapshotView<String>,
    shown: CardTexts,
    connected: bool,
    last_push_at: Option<i64>,
    now: int,
    status: Seq<char>,
    i: int,
)
    requires
        shown.outputs@.len() == snap.models.len(),
    ensures
        ({
            let card = card_view(snap, shown, connected, last_push_at, now, status);
            let c = card.children;
            let n = snap.models.len() as int;
            &&& c.len() == n + 8
            &&& c[0] == badge_view(connected)
            &&& 0 <= i < n ==> c[3 + i].text == snap.models[i].model + " · "@ + digits(
                snap.models[i].calls as nat,
            ) + " 次 · 输出 "@ + shown.outputs@[i]@ + " · ¥"@ + snap.models[i].cost@
            &&& c[n + 4].text == status
            &&& c[n + 5].text == "立即推送"@ && click_on(c[n + 5]) == UiAction::ForcePush
            &&& c[n + 6].text == "查余额"@ && click_on(c[n + 6]) == UiAction::Balance
            &&& c[n + 7].text == "导出导入"@ && click_on(c[n + 7]) == UiAction::Export
            &&& card.props == seq![PropView::Flex, PropView::Column, PropView::Padding(12)]
        }),
{
    lemma_button_ids();
    let c = card_view(snap, shown, connected, last_push_at, now, status).children;
    if 0 <= i < snap.models.len() {
        assert(texts(shown.outputs@)[i] == shown.outputs@[i]@);
    }
}

/// The card shows the balance with its parts, each in its place and zero where it is missing, and
/// says where there is none.
pub proof fn law_card_shows_the_balance(
    snap: SnapshotView<String>,
    shown: CardTexts,
    connected: bool,
    last_push_at: Option<i64>,
    now: int,
    status: Seq<char>,
)
    ensures
        ({
            let line = card_view(snap, shown, connected, last_push_at, now, status).children[1].text;
            &&& snap.balance is None ==> line == "余额 -- / 接口不可用或未配置"@
            &&& snap.balance matches Some(b) ==> {
                let up = match b.top_up {
                    Some(t) => t@,
                    None => "0.00"@,
                };
                let granted = match b.granted {
                    Some(t) => t@,
                    None => "0.00"@,
                };
                line == "余额 ¥"@ + b.total@ + " (充值 "@ + up + " / 赠送 "@ + granted + ") · "@
                    + b.currency
            }
        }),
{
}

/// The card shows the day's cache use, or that there was none, and how old the last push is.
pub proof fn law_card_shows_the_day(
    snap: SnapshotView<String>,
    shown: CardTexts,
    connected: bool,
    last_push_at: Option<i64>,
    now: int,
    status: Seq<char>,
)
    ensures
        ({
            let c = card_view(snap, shown, connected, last_push_at, now, status).children;
            let n = snap.models.len() as int;
            &&& snap.cache.hit_rate is None ==> c[2].text == "今日暂无调用 · "@ + snap.cache.date
            &&& snap.cache.hit_rate is Some ==> c[2].text == "今日命中率 "@ + shown.hit_rate@
                + "% (命中 "@ + shown.hit_tokens@ + " / 未命中 "@ + shown.miss_tokens@ + ") · "@
                + snap.cache.date
            &&& last_push_at is None ==> c[n + 3].text == "新鲜度 "@ + snap.freshness + " · "@
                + "尚未推送"@
            &&& last_push_at matches Some(t) ==> c[n + 3].text == "新鲜度 "@ + snap.freshness
                + " · "@ + ("上次推送 "@ + ago_text(now - t) + " 前"@)
        }),
{
}

/// The badge says whether a device is connected, in green or red.
pub proof fn law_badge(connected: bool)
    ensures
        ({
            let badge = badge_view(connected);
            &&& badge.kind == ElementKind::P
            &&& connected ==> badge.text == "已连接 · 自动推送中"@ && badge.props == seq![
                PropView::Padding(6),
                PropView::Radius(999),
                PropView::Background("#163B2C"@),
                PropView::TextColor("#87E9C6"@),
            ]
            &&& !connected ==> badge.text == "未连接设备"@ && badge.props == seq![
                PropView::Padding(6),
                PropView::Radius(999),
                PropView::Background("#3B2A2A"@),
                PropView::TextColor("#F0B7B7"@),
            ]
        }),
{
}

/// The page shows every setting in the input that changes it, and a button for everything that the
/// user can ask for.
pub proof fn law_page(settings: SettingsView, status: Seq<char>, status_at: int, tz: int)
    ensures
        ({
            let page = page_view(settings, status, status_at, tz);
            let c = page.children;
            &&& c.len() == 21
            &&& c[1] == input_view("input-api-key"@, settings.api_key)
            &&& c[3] == input_view("input-platform-token"@, settings.platform_token)
            &&& c[5] == input_view("input-push-pkg"@, settings.push_pkg)
            &&& c[7] == input_view(
                "input-push-interval"@,
                digits(settings.push_interval_secs as nat),
            )
            &&& c[9] == input_view(
                "input-balance-interval"@,
                digits(settings.balance_interval_secs as nat),
            )
            &&& c[11] == input_view(
                "input-export-interval"@,
                digits(settings.export_interval_secs as nat),
            )
            &&& c[0] == hint_view("API Key (api.deepseek.com,余额接口):"@)
            &&& c[2] == hint_view(
                "平台 Token (platform.deepseek.com,用量导出,浏览器 F12 复制):"@,
            )
            &&& c[4] == hint_view("手环快应用包名:"@)
            &&& c[6] == hint_view("推送间隔(秒,默认 60):"@)
            &&& c[8] == hint_view("余额轮询间隔(秒,默认 60):"@)
            &&& c[10] == hint_view("自动导出间隔(秒,默认 60,0=禁用自动导出):"@)
            &&& c[17] == hint_view(
                "跨版本持久化(宿主更新插件会清空插件目录,更新前备份、更新后恢复):"@,
            )
            &&& c[12].text == "保存设置"@ && click_on(c[12]) == UiAction::SaveSettings
            &&& c[13].text == "立即查余额"@ && click_on(c[13]) == UiAction::Balance
            &&& c[14].text == "导出并导入"@ && click_on(c[14]) == UiAction::Export
            &&& c[15].text == "推送手环"@ && click_on(c[15]) == UiAction::ForcePush
            &&& c[16].text == "检测设备"@ && click_on(c[16]) == UiAction::RefreshDevice
            &&& c[18].text == "备份配置/数据"@ && click_on(c[18]) == UiAction::Backup
            &&& c[19].text == "从备份恢复"@ && click_on(c[19]) == UiAction::Restore
            &&& c[20].text == status_line(status, status_at, tz)
            &&& page.props == seq![PropView::Flex, PropView::Column, PropView::Padding(16)]
        }),
{
    lemma_button_ids();
}

/// The status stands with the local time of day at which it was set, or with a dash where none was
/// set.
pub proof fn law_status_line(status: Seq<char>, at: int, tz: int)
    ensures
        status_line(status, 0, tz) == "状态: "@ + status + " ("@ + "-"@ + ")"@,
        at != 0 ==> status_line(status, at, tz) == "状态: "@ + status + " ("@ + clock_text(at, tz)
            + ")"@,
{
}

/// The time of day is the number of seconds since local midnight, in hours, minutes and seconds of
/// two places each.
pub proof fn law_clock(epoch: int, tz: int, h: int, m: int, s: int)
    requires
        0 <= h < 24,
        0 <= m < 60,
        0 <= s < 60,
        (epoch + tz * 60) % 86_400 == h * 3600 + m * 60 + s,
    ensures
        clock_text(epoch, tz) == padded(h, 2) + ":"@ + padded(m, 2) + ":"@ + padded(s, 2),
{
    let local = epoch + tz * 60;
    let day = local / 86_400;
    assert(local == day * 86_400 + h * 3600 + m * 60 + s);
    assert(local / 3600 == day * 24 + h);
    assert((day * 24 + h) % 24 == h);
    assert(local / 60 == day * 1440 + h * 60 + m);
    assert((day * 1440 + h * 60 + m) % 60 == m);
    assert(local % 60 == s);
}

/// A span is shown in hours from an hour on, in minutes from a minute on, and in seconds below;
/// what is left over does not count.
pub proof fn law_spans(n: int, rest: int)
    ensures
        n < 60 ==> ago_text(n) == int_text(n) + "s"@,
        1 <= n < 60 && 0 <= rest < 60 ==> ago_text(n * 60 + rest) == int_text(n) + "m"@,
        1 <= n && 0 <= rest < 3600 ==> ago_text(n * 3600 + rest) == int_text(n) + "h"@,
{
    if 1 <= n < 60 && 0 <= rest < 60 {
        assert((n * 60 + rest) / 60 == n);
    }
    if 1 <= n && 0 <= rest < 3600 {
        assert((n * 3600 + rest) / 3600 == n);
    }
}

/// Behind an action the surfaces that were drawn are drawn again, into the elements that they were
/// last drawn into, the page first.
pub proof fn law_surfaces(page: Seq<char>, card: Seq<char>)
    ensures
        drawn_surfaces(None, None).len() == 0,
        drawn_surfaces(Some(page), None) == seq![(Surface::Page, page)],
        drawn_surfaces(None, Some(card)) == seq![(Surface::Card, card)],
        drawn_surfaces(Some(page), Some(card)) == seq![
            (Surface::Page, page),
            (Surface::Card, card),
        ],
{
    assert(drawn_surfaces(Some(page), None) =~= seq![(Surface::Page, page)]);
    assert(drawn_surfaces(None, Some(card)) =~= seq![(Surface::Card, card)]);
    assert(drawn_surfaces(Some(page), Some(card)) =~= seq![
        (Surface::Page, page),
        (Surface::Card, card),
    ]);
}

} // verus!
