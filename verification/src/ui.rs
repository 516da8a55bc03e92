//! The plugin's two surfaces: the card on the device page and the settings page, and the events
//! that they send.
use vstd::prelude::*;
use vstd::string::*;

use crate::json::{json_document, opt_text, read_json, text_of, Json, JsonView};
use crate::number::{law_decimal_round_trip, parse_u64, u64_of};
use crate::snapshot::{Snapshot, SnapshotView};
use crate::state::{Settings, SettingsView};
use crate::text::{
    digits, i64_text, int_text, option_text, padded, padded_text, text_eq, texts, u64_text,
};

verus! {

pub const INPUT_API_KEY: &'static str = "input-api-key";

pub const INPUT_PLATFORM_TOKEN: &'static str = "input-platform-token";

pub const INPUT_PUSH_PKG: &'static str = "input-push-pkg";

pub const INPUT_PUSH_INTERVAL: &'static str = "input-push-interval";

pub const INPUT_BALANCE_INTERVAL: &'static str = "input-balance-interval";

pub const INPUT_EXPORT_INTERVAL: &'static str = "input-export-interval";

pub const BTN_SAVE_SETTINGS: &'static str = "btn-save-settings";

pub const BTN_BALANCE_NOW: &'static str = "btn-balance-now";

pub const BTN_EXPORT_NOW: &'static str = "btn-export-now";

pub const BTN_PUSH_NOW: &'static str = "btn-push-now";

pub const BTN_HOUSEKEEPING: &'static str = "btn-housekeeping";

pub const BTN_BACKUP: &'static str = "btn-backup";

pub const BTN_RESTORE: &'static str = "btn-restore";

/// What the user reads once the settings are saved.
pub const SAVED_STATUS: &'static str = "设置已保存,定时器已更新";

/// The least interval between two pushes, in seconds.
pub const MIN_PUSH_SECS: u64 = 10;

/// The least interval between two balance requests, in seconds.
pub const MIN_BALANCE_SECS: u64 = 30;

/// The events of an element.
#[derive(Debug, Clone, Copy, PartialEq, Eq, Structural)]
pub enum UiEvent {
    Click,
    Input,
    Other,
}

/// How an element looks and what it reports.
#[derive(Debug, Clone, PartialEq, Eq)]
pub enum Prop {
    Size(u32),
    Margin(u32),
    Padding(u32),
    Radius(u32),
    Border(u32, &'static str),
    Background(&'static str),
    TextColor(&'static str),
    WidthFull,
    Flex,
    Column,
    On(UiEvent, &'static str),
}

/// What a property says.
pub enum PropView {
    Size(u32),
    Margin(u32),
    Padding(u32),
    Radius(u32),
    Border(u32, Seq<char>),
    Background(Seq<char>),
    TextColor(Seq<char>),
    WidthFull,
    Flex,
    Column,
    On(UiEvent, Seq<char>),
}

impl View for Prop {
    type V = PropView;

    open spec fn view(&self) -> PropView {
        match self {
            Prop::Size(n) => PropView::Size(*n),
            Prop::Margin(n) => PropView::Margin(*n),
            Prop::Padding(n) => PropView::Padding(*n),
            Prop::Radius(n) => PropView::Radius(*n),
            Prop::Border(n, color) => PropView::Border(*n, color@),
            Prop::Background(color) => PropView::Background(color@),
            Prop::TextColor(color) => PropView::TextColor(color@),
            Prop::WidthFull => PropView::WidthFull,
            Prop::Flex => PropView::Flex,
            Prop::Column => PropView::Column,
            Prop::On(event, id) => PropView::On(*event, id@),
        }
    }
}

/// What a list of properties says.
pub open spec fn prop_views(props: Seq<Prop>) -> Seq<PropView> {
    props.map_values(|p: Prop| p@)
}

/// The kinds of elements that stand in a panel.
#[derive(Debug, Clone, Copy, PartialEq, Eq, Structural)]
pub enum ElementKind {
    P,
    Button,
    Input,
}

/// An element of a panel, its properties in the order in which they are set.
#[derive(Debug, Clone, PartialEq, Eq)]
pub struct Element {
    pub kind: ElementKind,
    pub text: String,
    pub props: Vec<Prop>,
}

/// What an element is.
pub struct ElementView {
    pub kind: ElementKind,
    pub text: Seq<char>,
    pub props: Seq<PropView>,
}

impl View for Element {
    type V = ElementView;

    open spec fn view(&self) -> ElementView {
        ElementView { kind: self.kind, text: self.text@, props: prop_views(self.props@) }
    }
}

/// A surface: a panel with its elements.
#[derive(Debug, Clone, PartialEq, Eq)]
pub struct Panel {
    pub props: Vec<Prop>,
    pub children: Vec<Element>,
}

/// What a surface is.
pub struct PanelView {
    pub props: Seq<PropView>,
    pub children: Seq<ElementView>,
}

/// What a list of elements is.
pub open spec fn element_views(elements: Seq<Element>) -> Seq<ElementView> {
    elements.map_values(|e: Element| e@)
}

impl View for Panel {
    type V = PanelView;

    open spec fn view(&self) -> PanelView {
        PanelView { props: prop_views(self.props@), children: element_views(self.children@) }
    }
}

/// A line of text.
pub open spec fn p_view(text: Seq<char>) -> ElementView {
    ElementView { kind: ElementKind::P, text, props: Seq::empty() }
}

/// A line of text.
pub fn p(text: &str) -> (e: Element)
    ensures
        e@ == p_view(text@),
{
    let e = Element { kind: ElementKind::P, text: text.to_owned(), props: Vec::new() };
    proof {
        assert(e@.props =~= p_view(text@).props);
    }
    e
}

/// A line above an input, in small letters.
pub open spec fn hint_view(text: Seq<char>) -> ElementView {
    ElementView {
        kind: ElementKind::P,
        text,
        props: seq![PropView::Size(12), PropView::Margin(2)],
    }
}

/// A line above an input, in small letters.
pub fn hint(text: &str) -> (e: Element)
    ensures
        e@ == hint_view(text@),
{
    let mut e = p(text);
    proof {
        assert(prop_views(e.props@).len() == e.props@.len());
    }
    e.props.push(Prop::Size(12));
    e.props.push(Prop::Margin(2));
    proof {
        assert(e@.props =~= hint_view(text@).props);
    }
    e
}

/// The colors of a button, background and text: orange where it keeps something, green where it
/// fetches, light blue where it concerns the device.
pub open spec fn style_of(id: Seq<char>) -> (Seq<char>, Seq<char>) {
    if id == BTN_SAVE_SETTINGS@ || id == BTN_BACKUP@ || id == BTN_RESTORE@ {
        ("#F97316"@, "#FFFFFF"@)
    } else if id == BTN_BALANCE_NOW@ || id == BTN_EXPORT_NOW@ {
        ("#22C55E"@, "#062D1A"@)
    } else if id == BTN_PUSH_NOW@ || id == BTN_HOUSEKEEPING@ {
        ("#38BDF8"@, "#082F49"@)
    } else {
        ("#11182C"@, "#FFFFFF"@)
    }
}

/// The colors of a button, background and text.
pub fn button_style(event_id: &str) -> (style: (&'static str, &'static str))
    ensures
        (style.0@, style.1@) == style_of(event_id@),
{
    if text_eq(event_id, BTN_SAVE_SETTINGS) || text_eq(event_id, BTN_BACKUP) || text_eq(
        event_id,
        BTN_RESTORE,
    ) {
        ("#F97316", "#FFFFFF")
    } else if text_eq(event_id, BTN_BALANCE_NOW) || text_eq(event_id, BTN_EXPORT_NOW) {
        ("#22C55E", "#062D1A")
    } else if text_eq(event_id, BTN_PUSH_NOW) || text_eq(event_id, BTN_HOUSEKEEPING) {
        ("#38BDF8", "#082F49")
    } else {
        ("#11182C", "#FFFFFF")
    }
}

/// A wide button.
pub open spec fn btn_view(label: Seq<char>, id: Seq<char>) -> ElementView {
    ElementView {
        kind: ElementKind::Button,
        text: label,
        props: seq![
            PropView::Padding(10),
            PropView::Margin(4),
            PropView::Radius(10),
            PropView::Background(style_of(id).0),
            PropView::TextColor(style_of(id).1),
            PropView::WidthFull,
            PropView::On(UiEvent::Click, id),
        ],
    }
}

/// A wide button.
pub fn btn(label: &str, event_id: &'static str) -> (e: Element)
    ensures
        e@ == btn_view(label@, event_id@),
{
    let (bg, fg) = button_style(event_id);
    let mut props: Vec<Prop> = Vec::new();
    props.push(Prop::Padding(10));
    props.push(Prop::Margin(4));
    props.push(Prop::Radius(10));
    props.push(Prop::Background(bg));
    props.push(Prop::TextColor(fg));
    props.push(Prop::WidthFull);
    props.push(Prop::On(UiEvent::Click, event_id));
    let e = Element { kind: ElementKind::Button, text: label.to_owned(), props };
    proof {
        assert(e@.props =~= btn_view(label@, event_id@).props);
    }
    e
}

/// A wide input.
pub open spec fn input_view(id: Seq<char>, value: Seq<char>) -> ElementView {
    ElementView {
        kind: ElementKind::Input,
        text: value,
        props: seq![
            PropView::Padding(8),
            PropView::Radius(8),
            PropView::Border(1, "#3A4A6B"@),
            PropView::WidthFull,
            PropView::On(UiEvent::Input, id),
        ],
    }
}

/// A wide input.
pub fn input(event_id: &'static str, value: &str) -> (e: Element)
    ensures
        e@ == input_view(event_id@, value@),
{
    let mut props: Vec<Prop> = Vec::new();
    props.push(Prop::Padding(8));
    props.push(Prop::Radius(8));
    props.push(Prop::Border(1, "#3A4A6B"));
    props.push(Prop::WidthFull);
    props.push(Prop::On(UiEvent::Input, event_id));
    let e = Element { kind: ElementKind::Input, text: value.to_owned(), props };
    proof {
        assert(e@.props =~= input_view(event_id@, value@).props);
    }
    e
}

/// The properties of a surface: its elements stand one below the other.
pub open spec fn panel_props(padding: u32) -> Seq<PropView> {
    seq![PropView::Flex, PropView::Column, PropView::Padding(padding)]
}

fn panel(padding: u32, children: Vec<Element>) -> (r: Panel)
    ensures
        r@ == (PanelView { props: panel_props(padding), children: element_views(children@) }),
{
    let mut props: Vec<Prop> = Vec::new();
    props.push(Prop::Flex);
    props.push(Prop::Column);
    props.push(Prop::Padding(padding));
    let r = Panel { props, children };
    proof {
        assert(r@.props =~= panel_props(padding));
    }
    r
}

/// The unit in which a number of tokens is shown.
#[derive(Debug, Clone, Copy, PartialEq, Eq, Structural)]
pub enum TokenUnit {
    One,
    Thousand,
    Million,
}

/// The unit in which a number of tokens is shown: with one decimal in thousands or millions from
/// there on, as it is below.
pub fn token_unit(n: u64) -> (unit: TokenUnit)
    ensures
        unit == if n >= 1_000_000 {
            TokenUnit::Million
        } else if n >= 1_000 {
            TokenUnit::Thousand
        } else {
            TokenUnit::One
        },
{
    if n >= 1_000_000 {
        TokenUnit::Million
    } else if n >= 1_000 {
        TokenUnit::Thousand
    } else {
        TokenUnit::One
    }
}

/// How long ago, in the largest unit of seconds, minutes and hours that has passed.
pub open spec fn ago_text(secs: int) -> Seq<char> {
    if secs < 60 {
        int_text(secs) + "s"@
    } else if secs < 3600 {
        int_text(secs / 60) + "m"@
    } else {
        int_text(secs / 3600) + "h"@
    }
}

/// How long ago, in the largest unit of seconds, minutes and hours that has passed.
pub fn fmt_ago(secs: i64) -> (text: String)
    ensures
        text@ == ago_text(secs as int),
{
    let mut text: String;
    if secs < 60 {
        text = i64_text(secs);
        text.append("s");
    } else if secs < 3600 {
        text = i64_text(secs / 60);
        text.append("m");
    } else {
        text = i64_text(secs / 3600);
        text.append("h");
    }
    text
}

/// The local time of day at `epoch`: hours, minutes and seconds.
pub open spec fn clock_text(epoch: int, tz: int) -> Seq<char> {
    let local = epoch + tz * 60;
    padded(local / 3600 % 24, 2) + ":"@ + padded(local / 60 % 60, 2) + ":"@ + padded(local % 60, 2)
}

proof fn lemma_clock(local: int, days: int)
    ensures
        (local + days * 86_400) / 3600 % 24 == local / 3600 % 24,
        (local + days * 86_400) / 60 % 60 == local / 60 % 60,
        (local + days * 86_400) % 60 == local % 60,
{
    assert((local + days * 86_400) / 3600 == local / 3600 + 24 * days);
    assert((local + days * 86_400) / 60 == local / 60 + 60 * (24 * days));
    assert((local / 3600 + 24 * days) % 24 == local / 3600 % 24);
    assert((local / 60 + 60 * (24 * days)) % 60 == local / 60 % 60);
}

/// The local time of day at `epoch`: hours, minutes and seconds.
pub fn fmt_epoch(epoch: i64, tz_offset_min: i32) -> (text: String)
    ensures
        text@ == clock_text(epoch as int, tz_offset_min as int),
{
    let local: i128 = epoch as i128 + tz_offset_min as i128 * 60;
    let shifted: u128 = (local + 1_000_000_000_000_000 * 86_400) as u128;
    proof {
        lemma_clock(local as int, 1_000_000_000_000_000);
    }
    let h: i64 = (shifted / 3600 % 24) as i64;
    let m: i64 = (shifted / 60 % 60) as i64;
    let s: i64 = (shifted % 60) as i64;
    let mut text = padded_text(h, 2);
    text.append(":");
    text.append(padded_text(m, 2).as_str());
    text.append(":");
    text.append(padded_text(s, 2).as_str());
    text
}

/// What of the card is computed in fractions, as it is shown: the hit rate in percent and the
/// numbers of tokens, for each model the tokens of its output.
#[derive(Debug, Clone, PartialEq, Eq)]
pub struct CardTexts {
    pub hit_rate: String,
    pub hit_tokens: String,
    pub miss_tokens: String,
    pub outputs: Vec<String>,
}

/// The badge at the top of the card.
pub open spec fn badge_view(connected: bool) -> ElementView {
    ElementView {
        kind: ElementKind::P,
        text: if connected {
            "已连接 · 自动推送中"@
        } else {
            "未连接设备"@
        },
        props: seq![
            PropView::Padding(6),
            PropView::Radius(999),
            PropView::Background(
                if connected {
                    "#163B2C"@
                } else {
                    "#3B2A2A"@
                },
            ),
            PropView::TextColor(
                if connected {
                    "#87E9C6"@
                } else {
                    "#F0B7B7"@
                },
            ),
        ],
    }
}

fn badge(connected: bool) -> (e: Element)
    ensures
        e@ == badge_view(connected),
{
    let (text, bg, fg) = if connected {
        ("已连接 · 自动推送中", "#163B2C", "#87E9C6")
    } else {
        ("未连接设备", "#3B2A2A", "#F0B7B7")
    };
    let mut e = p(text);
    proof {
        assert(prop_views(e.props@).len() == e.props@.len());
    }
    e.props.push(Prop::Padding(6));
    e.props.push(Prop::Radius(999));
    e.props.push(Prop::Background(bg));
    e.props.push(Prop::TextColor(fg));
    proof {
        assert(e@.props =~= badge_view(connected).props);
    }
    e
}

/// An amount as it is shown; zero where there is none.
pub open spec fn amount_shown(amount: Option<String>) -> Seq<char> {
    match amount {
        Some(text) => text@,
        None => "0.00"@,
    }
}

fn shown_amount(amount: &Option<String>) -> (text: String)
    ensures
        text@ == amount_shown(*amount),
{
    match amount {
        Some(text) => text.clone(),
        None => "0.00".to_owned(),
    }
}

/// The card's line about the balance.
pub open spec fn balance_line(snap: SnapshotView<String>) -> Seq<char> {
    match snap.balance {
        Some(b) => "余额 ¥"@ + b.total@ + " (充值 "@ + amount_shown(b.top_up) + " / 赠送 "@
            + amount_shown(b.granted) + ") · "@ + b.currency,
        None => "余额 -- / 接口不可用或未配置"@,
    }
}

fn write_balance_line(snap: &Snapshot<String>) -> (line: String)
    ensures
        line@ == balance_line(snap@),
{
    match &snap.balance {
        Some(b) => {
            let mut line = "余额 ¥".to_owned();
            line.append(b.total.as_str());
            line.append(" (充值 ");
            line.append(shown_amount(&b.top_up).as_str());
            line.append(" / 赠送 ");
            line.append(shown_amount(&b.granted).as_str());
            line.append(") · ");
            line.append(b.currency.as_str());
            line
        },
        None => "余额 -- / 接口不可用或未配置".to_owned(),
    }
}

/// The card's line about the cache.
pub open spec fn cache_line(
    snap: SnapshotView<String>,
    rate: Seq<char>,
    hits: Seq<char>,
    misses: Seq<char>,
) -> Seq<char> {
    if snap.cache.hit_rate is Some {
        "今日命中率 "@ + rate + "% (命中 "@ + hits + " / 未命中 "@ + misses + ") · "@
            + snap.cache.date
    } else {
        "今日暂无调用 · "@ + snap.cache.date
    }
}

fn write_cache_line(snap: &Snapshot<String>, shown: &CardTexts) -> (line: String)
    ensures
        line@ == cache_line(snap@, shown.hit_rate@, shown.hit_tokens@, shown.miss_tokens@),
{
    if snap.cache.hit_rate.is_some() {
        let mut line = "今日命中率 ".to_owned();
        line.append(shown.hit_rate.as_str());
        line.append("% (命中 ");
        line.append(shown.hit_tokens.as_str());
        line.append(" / 未命中 ");
        line.append(shown.miss_tokens.as_str());
        line.append(") · ");
        line.append(snap.cache.date.as_str());
        line
    } else {
        let mut line = "今日暂无调用 · ".to_owned();
        line.append(snap.cache.date.as_str());
        line
    }
}

/// The card's line about a model.
pub open spec fn model_line(
    model: Seq<char>,
    calls: u64,
    output: Seq<char>,
    cost: Seq<char>,
) -> Seq<char> {
    model + " · "@ + digits(calls as nat) + " 次 · 输出 "@ + output + " · ¥"@ + cost
}

/// The card's lines about the models.
pub open spec fn model_lines(snap: SnapshotView<String>, outputs: Seq<Seq<char>>) -> Seq<
    ElementView,
> {
    Seq::new(
        snap.models.len(),
        |i: int|
            p_view(
                model_line(
                    snap.models[i].model,
                    snap.models[i].calls,
                    outputs[i],
                    snap.models[i].cost@,
                ),
            ),
    )
}

/// The card's line about freshness and the last push.
pub open spec fn fresh_line(freshness: Seq<char>, last_push_at: Option<i64>, now: int) -> Seq<char> {
    "新鲜度 "@ + freshness + " · "@ + match last_push_at {
        Some(t) => "上次推送 "@ + ago_text(now - t) + " 前"@,
        None => "尚未推送"@,
    }
}

fn write_fresh_line(freshness: &str, last_push_at: Option<i64>, now: i64) -> (line: String)
    requires
        last_push_at matches Some(t) ==> i64::MIN <= now - t <= i64::MAX,
    ensures
        line@ == fresh_line(freshness@, last_push_at, now as int),
{
    let last_push = match last_push_at {
        Some(t) => {
            let mut text = "上次推送 ".to_owned();
            text.append(fmt_ago(now - t).as_str());
            text.append(" 前");
            text
        },
        None => "尚未推送".to_owned(),
    };
    let mut line = "新鲜度 ".to_owned();
    line.append(freshness);
    line.append(" · ");
    line.append(last_push.as_str());
    line
}

/// The card.
pub open spec fn card_view(
    snap: SnapshotView<String>,
    shown: CardTexts,
    connected: bool,
    last_push_at: Option<i64>,
    now: int,
    status: Seq<char>,
) -> PanelView {
    PanelView {
        props: panel_props(12),
        children: seq![
            badge_view(connected),
            p_view(balance_line(snap)),
            p_view(cache_line(snap, shown.hit_rate@, shown.hit_tokens@, shown.miss_tokens@)),
        ] + model_lines(snap, texts(shown.outputs@)) + seq![
            p_view(fresh_line(snap.freshness, last_push_at, now)),
            p_view(status),
            btn_view("立即推送"@, BTN_PUSH_NOW@),
            btn_view("查余额"@, BTN_BALANCE_NOW@),
            btn_view("导出导入"@, BTN_EXPORT_NOW@),
        ],
    }
}

/// Builds the card out of a snapshot whose amounts are texts.
pub fn build_card(
    snap: &Snapshot<String>,
    shown: &CardTexts,
    connected: bool,
    last_push_at: Option<i64>,
    now: i64,
    status: &str,
) -> (card: Panel)
    requires
        shown.outputs@.len() == snap.models@.len(),
        last_push_at matches Some(t) ==> i64::MIN <= now - t <= i64::MAX,
    ensures
        card@ == card_view(snap@, *shown, connected, last_push_at, now as int, status@),
{
    let mut children: Vec<Element> = Vec::new();
    children.push(badge(connected));
    children.push(p(write_balance_line(snap).as_str()));
    children.push(p(write_cache_line(snap, shown).as_str()));
    let ghost head = element_views(children@);
    let ghost lines = model_lines(snap@, texts(shown.outputs@));
    let mut i: usize = 0;
    while i < snap.models.len()
        invariant
            shown.outputs@.len() == snap.models@.len(),
            lines == model_lines(snap@, texts(shown.outputs@)),
            i <= snap.models@.len(),
            head.len() == 3,
            children@.len() == 3 + i,
            forall|j: int| 0 <= j < 3 ==> (#[trigger] children@[j])@ == head[j],
            forall|j: int| 3 <= j < 3 + i ==> (#[trigger] children@[j])@ == lines[j - 3],
        decreases snap.models@.len() - i,
    {
        let m = &snap.models[i];
        let mut line = m.model.clone();
        line.append(" · ");
        line.append(u64_text(m.calls).as_str());
        line.append(" 次 · 输出 ");
        line.append(shown.outputs[i].as_str());
        line.append(" · ¥");
        line.append(m.cost.as_str());
        children.push(p(line.as_str()));
        proof {
            assert(lines[i as int] == p_view(line@));
        }
        i = i + 1;
    }
    children.push(p(write_fresh_line(snap.freshness, last_push_at, now).as_str()));
    children.push(p(status));
    children.push(btn("立即推送", BTN_PUSH_NOW));
    children.push(btn("查余额", BTN_BALANCE_NOW));
    children.push(btn("导出导入", BTN_EXPORT_NOW));
    proof {
        let want = card_view(snap@, *shown, connected, last_push_at, now as int, status@).children;
        assert(element_views(children@) =~= want);
    }
    panel(12, children)
}

/// The page's line about the status; a dash where there was none yet.
pub open spec fn status_line(status: Seq<char>, status_at: int, tz: int) -> Seq<char> {
    "状态: "@ + status + " ("@ + (if status_at == 0 {
        "-"@
    } else {
        clock_text(status_at, tz)
    }) + ")"@
}

fn write_status_line(status: &str, status_at: i64, tz_offset_min: i32) -> (line: String)
    ensures
        line@ == status_line(status@, status_at as int, tz_offset_min as int),
{
    let mut line = "状态: ".to_owned();
    line.append(status);
    line.append(" (");
    if status_at == 0 {
        line.append("-");
    } else {
        line.append(fmt_epoch(status_at, tz_offset_min).as_str());
    }
    line.append(")");
    line
}

/// The settings page.
pub open spec fn page_view(
    settings: SettingsView,
    status: Seq<char>,
    status_at: int,
    tz: int,
) -> PanelView {
    PanelView {
        props: panel_props(16),
        children: seq![
            hint_view("API Key (api.deepseek.com,余额接口):"@),
            input_view(INPUT_API_KEY@, settings.api_key),
            hint_view("平台 Token (platform.deepseek.com,用量导出,浏览器 F12 复制):"@),
            input_view(INPUT_PLATFORM_TOKEN@, settings.platform_token),
            hint_view("手环快应用包名:"@),
            input_view(INPUT_PUSH_PKG@, settings.push_pkg),
            hint_view("推送间隔(秒,默认 60):"@),
            input_view(INPUT_PUSH_INTERVAL@, digits(settings.push_interval_secs as nat)),
            hint_view("余额轮询间隔(秒,默认 60):"@),
            input_view(INPUT_BALANCE_INTERVAL@, digits(settings.balance_interval_secs as nat)),
            hint_view("自动导出间隔(秒,默认 60,0=禁用自动导出):"@),
            input_view(INPUT_EXPORT_INTERVAL@, digits(settings.export_interval_secs as nat)),
            btn_view("保存设置"@, BTN_SAVE_SETTINGS@),
            btn_view("立即查余额"@, BTN_BALANCE_NOW@),
            btn_view("导出并导入"@, BTN_EXPORT_NOW@),
            btn_view("推送手环"@, BTN_PUSH_NOW@),
            btn_view("检测设备"@, BTN_HOUSEKEEPING@),
            hint_view("跨版本持久化(宿主更新插件会清空插件目录,更新前备份、更新后恢复):"@),
            btn_view("备份配置/数据"@, BTN_BACKUP@),
            btn_view("从备份恢复"@, BTN_RESTORE@),
            p_view(status_line(status, status_at, tz)),
        ],
    }
}

/// Builds the settings page.
pub fn build_page(settings: &Settings, status: &str, status_at: i64, tz_offset_min: i32) -> (page:
    Panel)
    ensures
        page@ == page_view(settings@, status@, status_at as int, tz_offset_min as int),
{
    let mut children: Vec<Element> = Vec::new();
    children.push(hint("API Key (api.deepseek.com,余额接口):"));
    children.push(input(INPUT_API_KEY, settings.api_key.as_str()));
    children.push(hint("平台 Token (platform.deepseek.com,用量导出,浏览器 F12 复制):"));
    children.push(input(INPUT_PLATFORM_TOKEN, settings.platform_token.as_str()));
    children.push(hint("手环快应用包名:"));
    children.push(input(INPUT_PUSH_PKG, settings.push_pkg.as_str()));
    children.push(hint("推送间隔(秒,默认 60):"));
    children.push(input(INPUT_PUSH_INTERVAL, u64_text(settings.push_interval_secs).as_str()));
    children.push(hint("余额轮询间隔(秒,默认 60):"));
    children.push(input(INPUT_BALANCE_INTERVAL, u64_text(settings.balance_interval_secs).as_str()));
    children.push(hint("自动导出间隔(秒,默认 60,0=禁用自动导出):"));
    children.push(input(INPUT_EXPORT_INTERVAL, u64_text(settings.export_interval_secs).as_str()));
    children.push(btn("保存设置", BTN_SAVE_SETTINGS));
    children.push(btn("立即查余额", BTN_BALANCE_NOW));
    children.push(btn("导出并导入", BTN_EXPORT_NOW));
    children.push(btn("推送手环", BTN_PUSH_NOW));
    children.push(btn("检测设备", BTN_HOUSEKEEPING));
    children.push(
        hint("跨版本持久化(宿主更新插件会清空插件目录,更新前备份、更新后恢复):"),
    );
    children.push(btn("备份配置/数据", BTN_BACKUP));
    children.push(btn("从备份恢复", BTN_RESTORE));
    children.push(p(write_status_line(status, status_at, tz_offset_min).as_str()));
    proof {
        let want = page_view(settings@, status@, status_at as int, tz_offset_min as int).children;
        assert(element_views(children@) =~= want);
    }
    panel(16, children)
}

/// The elements of the host into which the surfaces were last drawn.
#[derive(Debug, Clone, PartialEq, Eq)]
pub struct ElementIds {
    pub page: Option<String>,
    pub card: Option<String>,
}

/// Draws the card into an element, which is remembered.
pub fn render_card(
    ids: &mut ElementIds,
    card_id: &str,
    snap: &Snapshot<String>,
    shown: &CardTexts,
    connected: bool,
    last_push_at: Option<i64>,
    now: i64,
    status: &str,
) -> (card: Panel)
    requires
        shown.outputs@.len() == snap.models@.len(),
        last_push_at matches Some(t) ==> i64::MIN <= now - t <= i64::MAX,
    ensures
        option_text(final(ids).card) == Some(card_id@),
        final(ids).page == old(ids).page,
        card@ == card_view(snap@, *shown, connected, last_push_at, now as int, status@),
{
    ids.card = Some(card_id.to_owned());
    build_card(snap, shown, connected, last_push_at, now, status)
}

/// Draws the settings page into an element, which is remembered.
pub fn render_page(
    ids: &mut ElementIds,
    element_id: &str,
    settings: &Settings,
    status: &str,
    status_at: i64,
    tz_offset_min: i32,
) -> (page: Panel)
    ensures
        option_text(final(ids).page) == Some(element_id@),
        final(ids).card == old(ids).card,
        page@ == page_view(settings@, status@, status_at as int, tz_offset_min as int),
{
    ids.page = Some(element_id.to_owned());
    build_page(settings, status, status_at, tz_offset_min)
}

/// The surfaces of the plugin.
#[derive(Debug, Clone, Copy, PartialEq, Eq, Structural)]
pub enum Surface {
    Page,
    Card,
}

/// The surfaces that were drawn, each with the element that it was last drawn into: the page
/// first.
pub open spec fn drawn_surfaces(
    page: Option<Seq<char>>,
    card: Option<Seq<char>>,
) -> Seq<(Surface, Seq<char>)> {
    (match page {
        Some(id) => seq![(Surface::Page, id)],
        None => Seq::empty(),
    }) + match card {
        Some(id) => seq![(Surface::Card, id)],
        None => Seq::empty(),
    }
}

/// The surfaces to draw again.
pub fn rerender(ids: &ElementIds) -> (surfaces: Vec<(Surface, String)>)
    ensures
        surfaces@.map_values(|s: (Surface, String)| (s.0, s.1@)) == drawn_surfaces(
            option_text(ids.page),
            option_text(ids.card),
        ),
{
    let mut surfaces: Vec<(Surface, String)> = Vec::new();
    if let Some(id) = &ids.page {
        surfaces.push((Surface::Page, id.clone()));
    }
    if let Some(id) = &ids.card {
        surfaces.push((Surface::Card, id.clone()));
    }
    surfaces
}

/// The text that an event's payload carries in its field `value`; the payload itself where it is
/// no JSON or has no such text.
pub open spec fn value_in(doc: Option<JsonView>, payload: Seq<char>) -> Seq<char> {
    match doc {
        Some(v) => match opt_text(v.field("value"@)) {
            Some(text) => text,
            None => payload,
        },
        None => payload,
    }
}

/// The text that an event's payload carries, the payload also read as JSON.
pub fn value_of_payload(doc: &Option<Json>, payload: &str) -> (value: String)
    ensures
        value@ == value_in(
            match doc {
                Some(v) => Some(v@),
                None => None,
            },
            payload@,
        ),
{
    match doc {
        Some(v) => match text_of(v.field("value")) {
            Some(text) => text,
            None => payload.to_owned(),
        },
        None => payload.to_owned(),
    }
}

/// The text that an event's payload carries.
pub fn payload_value(payload: &str) -> (value: String)
    ensures
        value@ == value_in(json_document(payload.spec_bytes()), payload@),
{
    value_of_payload(&read_json(payload.as_bytes()), payload)
}

/// An interval as it is typed in: at least `least`; what is no number leaves it as it was.
pub open spec fn typed_interval(value: Seq<char>, least: u64, before: u64) -> u64 {
    match u64_of(value) {
        Some(v) => if v < least {
            least
        } else {
            v
        },
        None => before,
    }
}

/// The settings behind a text that is typed into an input.
pub open spec fn settings_after(before: SettingsView, id: Seq<char>, value: Seq<char>) -> SettingsView {
    if id == INPUT_API_KEY@ {
        SettingsView { api_key: value, ..before }
    } else if id == INPUT_PLATFORM_TOKEN@ {
        SettingsView { platform_token: value, ..before }
    } else if id == INPUT_PUSH_PKG@ {
        SettingsView { push_pkg: value, ..before }
    } else if id == INPUT_PUSH_INTERVAL@ {
        SettingsView {
            push_interval_secs: typed_interval(value, MIN_PUSH_SECS, before.push_interval_secs),
            ..before
        }
    } else if id == INPUT_BALANCE_INTERVAL@ {
        SettingsView {
            balance_interval_secs: typed_interval(
                value,
                MIN_BALANCE_SECS,
                before.balance_interval_secs,
            ),
            ..before
        }
    } else if id == INPUT_EXPORT_INTERVAL@ {
        SettingsView {
            export_interval_secs: typed_interval(value, 0, before.export_interval_secs),
            ..before
        }
    } else {
        before
    }
}

fn read_interval(value: &str, least: u64, before: u64) -> (secs: u64)
    ensures
        secs == typed_interval(value@, least, before),
{
    match parse_u64(value) {
        Some(v) => if v < least {
            least
        } else {
            v
        },
        None => before,
    }
}

/// Takes a text that is typed into an input.
pub fn type_in(settings: &mut Settings, event_id: &str, value: String)
    ensures
        final(settings)@ == settings_after(old(settings)@, event_id@, value@),
{
    if text_eq(event_id, INPUT_API_KEY) {
        settings.api_key = value;
    } else if text_eq(event_id, INPUT_PLATFORM_TOKEN) {
        settings.platform_token = value;
    } else if text_eq(event_id, INPUT_PUSH_PKG) {
        settings.push_pkg = value;
    } else if text_eq(event_id, INPUT_PUSH_INTERVAL) {
        settings.push_interval_secs = read_interval(
            value.as_str(),
            MIN_PUSH_SECS,
            settings.push_interval_secs,
        );
    } else if text_eq(event_id, INPUT_BALANCE_INTERVAL) {
        settings.balance_interval_secs = read_interval(
            value.as_str(),
            MIN_BALANCE_SECS,
            settings.balance_interval_secs,
        );
    } else if text_eq(event_id, INPUT_EXPORT_INTERVAL) {
        settings.export_interval_secs = read_interval(
            value.as_str(),
            0,
            settings.export_interval_secs,
        );
    }
}

/// What a click asks for. Both surfaces are drawn again behind everything but `Nothing`.
#[derive(Debug, Clone, Copy, PartialEq, Eq, Structural)]
pub enum UiAction {
    /// Save the settings, set the timers anew, and say so.
    SaveSettings,
    Balance,
    Export,
    /// Push the snapshot whatever was pushed last.
    ForcePush,
    RefreshDevice,
    Backup,
    Restore,
    Nothing,
}

/// What a click on a button asks for.
pub open spec fn click_asks(id: Seq<char>) -> UiAction {
    if id == BTN_SAVE_SETTINGS@ {
        UiAction::SaveSettings
    } else if id == BTN_BALANCE_NOW@ {
        UiAction::Balance
    } else if id == BTN_EXPORT_NOW@ {
        UiAction::Export
    } else if id == BTN_PUSH_NOW@ {
        UiAction::ForcePush
    } else if id == BTN_HOUSEKEEPING@ {
        UiAction::RefreshDevice
    } else if id == BTN_BACKUP@ {
        UiAction::Backup
    } else if id == BTN_RESTORE@ {
        UiAction::Restore
    } else {
        UiAction::Nothing
    }
}

/// What a click on a button asks for.
pub fn click_action(event_id: &str) -> (action: UiAction)
    ensures
        action == click_asks(event_id@),
{
    if text_eq(event_id, BTN_SAVE_SETTINGS) {
        UiAction::SaveSettings
    } else if text_eq(event_id, BTN_BALANCE_NOW) {
        UiAction::Balance
    } else if text_eq(event_id, BTN_EXPORT_NOW) {
        UiAction::Export
    } else if text_eq(event_id, BTN_PUSH_NOW) {
        UiAction::ForcePush
    } else if text_eq(event_id, BTN_HOUSEKEEPING) {
        UiAction::RefreshDevice
    } else if text_eq(event_id, BTN_BACKUP) {
        UiAction::Backup
    } else if text_eq(event_id, BTN_RESTORE) {
        UiAction::Restore
    } else {
        UiAction::Nothing
    }
}

/// Takes an event of an element: what is typed goes into the settings, a click asks for something,
/// and any other event for nothing.
pub fn handle_ui_event(
    settings: &mut Settings,
    event_id: &str,
    event: UiEvent,
    payload: &str,
) -> (action: UiAction)
    ensures
        action == if event == UiEvent::Click {
            click_asks(event_id@)
        } else {
            UiAction::Nothing
        },
        final(settings)@ == if event == UiEvent::Input {
            settings_after(
                old(settings)@,
                event_id@,
                value_in(json_document(payload.spec_bytes()), payload@),
            )
        } else {
            old(settings)@
        },
{
    match event {
        UiEvent::Input => {
            type_in(settings, event_id, payload_value(payload));
            UiAction::Nothing
        },
        UiEvent::Click => click_action(event_id),
        UiEvent::Other => UiAction::Nothing,
    }
}

/// Typing in what the page shows changes nothing, as long as the intervals are not below the
/// least ones.
pub proof fn law_page_reads_back(
    settings: SettingsView,
    status: Seq<char>,
    status_at: int,
    tz: int,
    k: int,
)
    requires
        settings.push_interval_secs >= MIN_PUSH_SECS,
        settings.balance_interval_secs >= MIN_BALANCE_SECS,
        0 <= k < page_view(settings, status, status_at, tz).children.len(),
    ensures
        ({
            let e = page_view(settings, status, status_at, tz).children[k];
            e.kind == ElementKind::Input ==> (e.props.last() matches PropView::On(event, id)
                && event == UiEvent::Input && settings_after(settings, id, e.text) == settings)
        }),
{
    law_decimal_round_trip(settings.push_interval_secs);
    law_decimal_round_trip(settings.balance_interval_secs);
    law_decimal_round_trip(settings.export_interval_secs);
    lemma_input_ids_differ();
}

/// The inputs of the page have different ids.
pub proof fn lemma_input_ids_differ()
    ensures
        INPUT_PLATFORM_TOKEN@ != INPUT_API_KEY@,
        INPUT_PUSH_PKG@ != INPUT_API_KEY@,
        INPUT_PUSH_PKG@ != INPUT_PLATFORM_TOKEN@,
        INPUT_PUSH_INTERVAL@ != INPUT_API_KEY@,
        INPUT_PUSH_INTERVAL@ != INPUT_PLATFORM_TOKEN@,
        INPUT_PUSH_INTERVAL@ != INPUT_PUSH_PKG@,
        INPUT_BALANCE_INTERVAL@ != INPUT_API_KEY@,
        INPUT_BALANCE_INTERVAL@ != INPUT_PLATFORM_TOKEN@,
        INPUT_BALANCE_INTERVAL@ != INPUT_PUSH_PKG@,
        INPUT_BALANCE_INTERVAL@ != INPUT_PUSH_INTERVAL@,
        INPUT_EXPORT_INTERVAL@ != INPUT_API_KEY@,
        INPUT_EXPORT_INTERVAL@ != INPUT_PLATFORM_TOKEN@,
        INPUT_EXPORT_INTERVAL@ != INPUT_PUSH_PKG@,
        INPUT_EXPORT_INTERVAL@ != INPUT_PUSH_INTERVAL@,
        INPUT_EXPORT_INTERVAL@ != INPUT_BALANCE_INTERVAL@,
{
    reveal_strlit("input-api-key");
    reveal_strlit("input-platform-token");
    reveal_strlit("input-push-pkg");
    reveal_strlit("input-push-interval");
    reveal_strlit("input-balance-interval");
    reveal_strlit("input-export-interval");
    assert(INPUT_API_KEY@.len() == 13);
    assert(INPUT_PLATFORM_TOKEN@.len() == 20);
    assert(INPUT_PUSH_PKG@.len() == 14);
    assert(INPUT_PUSH_INTERVAL@.len() == 19);
    assert(INPUT_BALANCE_INTERVAL@.len() == 22);
    assert(INPUT_EXPORT_INTERVAL@.len() == 21);
}

/// Whatever is typed in, no interval falls below its least value.
pub proof fn law_intervals_stay_above(settings: SettingsView, id: Seq<char>, value: Seq<char>)
    requires
        settings.push_interval_secs >= MIN_PUSH_SECS,
        settings.balance_interval_secs >= MIN_BALANCE_SECS,
    ensures
        settings_after(settings, id, value).push_interval_secs >= MIN_PUSH_SECS,
        settings_after(settings, id, value).balance_interval_secs >= MIN_BALANCE_SECS,
{
}

} // verus!
