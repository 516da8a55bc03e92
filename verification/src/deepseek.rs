//! The two endpoints of the platform: what is asked of them, and what their replies mean.
//!
//! The balance comes from `GET {base}/user/balance`, the usage export from
//! `GET {platform}/api/v0/usage/export?start=&end=&tz=`. Sending is the caller's part.
use vstd::prelude::*;
use vstd::string::*;

use crate::dates::{local_day, local_day_at, unix_now, DAY_SECS};
use crate::json::{
    bool_of, int_of, json_document, opt_bool, opt_int, opt_text, opt_view, read_json, text_of, Json,
    JsonView,
};
use crate::number::{is_fraction, is_fraction_text};
use crate::state::{BalanceInfo, BalanceView};
use crate::text::{
    contains_text, digits, has_text, i64_text, int_text, option_text, text_eq, trim_end_slashes, u64_text,
    without_end_slashes,
};

verus! {

/// The path of the balance endpoint.
pub const BALANCE_PATH: &'static str = "/user/balance";

/// The path of the export endpoint.
pub const EXPORT_PATH: &'static str = "/api/v0/usage/export";

/// The platform's own zone, UTC+8, in seconds.
pub const TZ_SEC: i64 = 28_800;

/// The platform turns requests without a browser's user agent away.
pub const USER_AGENT: &'static str =
    "Mozilla/5.0 (X11; Linux x86_64; rv:152.0) Gecko/20100101 Firefox/152.0";

/// Seconds within which a connection for the balance has to stand.
pub const BALANCE_CONNECT_SECS: u64 = 10;

/// Seconds within which a connection for the export has to stand.
pub const EXPORT_CONNECT_SECS: u64 = 60;

/// The address of the balance below a base address.
pub open spec fn balance_address(base: Seq<char>) -> Seq<char> {
    without_end_slashes(base) + BALANCE_PATH@
}

/// The address of the balance below a base address.
pub fn balance_url(base_url: &str) -> (url: String)
    ensures
        url@ == balance_address(base_url@),
{
    let mut url = trim_end_slashes(base_url);
    url.append(BALANCE_PATH);
    url
}

/// The value of the header `Authorization` for a key or token.
pub fn bearer(key: &str) -> (value: String)
    ensures
        value@ == "Bearer "@ + key@,
{
    let mut value = "Bearer ".to_owned();
    value.append(key);
    value
}

/// What is reported where a balance request does not get through.
pub fn balance_send_failure(url: &str, cause: &str) -> (text: String)
    ensures
        text@ == "余额请求失败: "@ + url@ + " ("@ + cause@ + ")"@,
{
    let mut text = "余额请求失败: ".to_owned();
    text.append(url);
    text.append(" (");
    text.append(cause);
    text.append(")");
    text
}

/// What a status of the balance endpoint other than 200 points to.
pub open spec fn balance_hint(status: u16) -> Seq<char> {
    if status == 401 {
        "(401 未授权:API Key 无效/过期)"@
    } else if status == 402 {
        "(402 余额不足/欠费)"@
    } else if status == 403 {
        "(403 禁止访问:检查 key 权限或 IP)"@
    } else if status == 404 {
        "(404 接口不存在:检查 base_url)"@
    } else if status == 429 {
        "(429 请求过频/限流,稍后重试)"@
    } else if 500 <= status < 600 {
        "(服务端错误,稍后重试)"@
    } else {
        ""@
    }
}

/// What a status of the balance endpoint other than 200 points to.
pub fn balance_http_hint(status: u16) -> (hint: &'static str)
    ensures
        hint@ == balance_hint(status),
{
    match status {
        401 => "(401 未授权:API Key 无效/过期)",
        402 => "(402 余额不足/欠费)",
        403 => "(403 禁止访问:检查 key 权限或 IP)",
        404 => "(404 接口不存在:检查 base_url)",
        429 => "(429 请求过频/限流,稍后重试)",
        s => if 500 <= s && s < 600 {
            "(服务端错误,稍后重试)"
        } else {
            ""
        },
    }
}

/// The decimal text of an amount, which the platform gives as a number or as a text.
pub open spec fn amount_in(v: Option<JsonView>) -> Option<Seq<char>> {
    match v {
        Some(JsonView::Number(_, text)) => Some(text),
        Some(JsonView::Text(text)) => if is_fraction(text) {
            Some(text)
        } else {
            None
        },
        _ => None,
    }
}

/// The decimal text of an amount, which the platform gives as a number or as a text.
pub fn amount_of(v: Option<&Json>) -> (r: Option<String>)
    ensures
        option_text(r) == amount_in(opt_view(v)),
{
    match v {
        Some(Json::Number(n)) => Some(n.text.clone()),
        Some(Json::Text(s)) => if is_fraction_text(s.as_str()) {
            Some(s.clone())
        } else {
            None
        },
        _ => None,
    }
}

/// Whether an entry of the balance list is in yuan.
pub open spec fn in_yuan(entry: JsonView) -> bool {
    opt_text(entry.field("currency"@)) == Some("CNY"@)
}

/// The first entry in yuan, from position `k` on.
pub open spec fn first_in_yuan(entries: Seq<JsonView>, k: int) -> Option<JsonView>
    decreases entries.len() - k,
{
    if k < 0 || k >= entries.len() {
        None
    } else if in_yuan(entries[k]) {
        Some(entries[k])
    } else {
        first_in_yuan(entries, k + 1)
    }
}

/// The entry that counts: the first in yuan, else the first.
pub open spec fn chosen_entry(entries: Seq<JsonView>) -> Option<JsonView> {
    match first_in_yuan(entries, 0) {
        Some(e) => Some(e),
        None => if entries.len() > 0 {
            Some(entries[0])
        } else {
            None
        },
    }
}

/// What a balance says, its amounts taken for their decimal texts.
pub struct BalanceTexts {
    pub total: Seq<char>,
    pub top_up: Option<Seq<char>>,
    pub granted: Option<Seq<char>>,
    pub currency: Seq<char>,
    pub checked_at: i64,
}

/// What an optional balance says, its amounts taken for their decimal texts.
pub open spec fn balance_texts(b: Option<BalanceInfo<String>>) -> Option<BalanceTexts> {
    match b {
        Some(b) => Some(
            BalanceTexts {
                total: b.total@,
                top_up: option_text(b.top_up),
                granted: option_text(b.granted),
                currency: b.currency@,
                checked_at: b.checked_at,
            },
        ),
        None => None,
    }
}

/// The balance that an entry states: none without a total; in yuan where it names no currency.
pub open spec fn entry_balance(entry: JsonView, checked_at: i64) -> Option<BalanceTexts> {
    match amount_in(entry.field("total_balance"@)) {
        Some(total) => Some(
            BalanceTexts {
                total,
                top_up: amount_in(entry.field("topped_up_balance"@)),
                granted: amount_in(entry.field("granted_balance"@)),
                currency: match opt_text(entry.field("currency"@)) {
                    Some(c) => c,
                    None => "CNY"@,
                },
                checked_at,
            },
        ),
        None => None,
    }
}

/// The balance that a reply states: none where the platform says that it is not available, or
/// where there is no list of entries.
pub open spec fn balance_in(body: JsonView, checked_at: i64) -> Option<BalanceTexts> {
    if opt_bool(body.field("is_available"@)) == Some(false) {
        None
    } else {
        match body.field("balance_infos"@) {
            Some(JsonView::List(entries)) => match chosen_entry(entries) {
                Some(entry) => entry_balance(entry, checked_at),
                None => None,
            },
            _ => None,
        }
    }
}

/// The position of the entry that counts.
fn choose_entry(entries: &Vec<Json>) -> (r: Option<usize>)
    ensures
        r matches Some(i) ==> i < entries@.len() && chosen_entry(
            Json::List(*entries)@->List_0,
        ) == Some(entries@[i as int]@),
        r is None ==> chosen_entry(Json::List(*entries)@->List_0) is None,
{
    let ghost all = Json::List(*entries)@->List_0;
    let mut i: usize = 0;
    while i < entries.len()
        invariant
            all == Json::List(*entries)@->List_0,
            all.len() == entries@.len(),
            i <= entries@.len(),
            first_in_yuan(all, i as int) == first_in_yuan(all, 0),
        decreases entries@.len() - i,
    {
        proof {
            assert(all[i as int] == entries@[i as int]@);
        }
        if let Some(currency) = text_of(entries[i].field("currency")) {
            if text_eq(currency.as_str(), "CNY") {
                return Some(i);
            }
        }
        i = i + 1;
    }
    if entries.len() > 0 {
        proof {
            assert(all[0] == entries@[0]@);
        }
        Some(0)
    } else {
        None
    }
}

/// Reads the balance out of a reply. The amounts keep their decimal texts.
pub fn parse_balance_body(body: &Json, checked_at: i64) -> (r: Option<BalanceInfo<String>>)
    ensures
        balance_texts(r) == balance_in(body@, checked_at),
{
    if let Some(false) = bool_of(body.field("is_available")) {
        return None;
    }
    let entries = match body.field("balance_infos") {
        Some(Json::List(entries)) => entries,
        _ => return None,
    };
    let at = match choose_entry(entries) {
        Some(at) => at,
        None => return None,
    };
    let entry = &entries[at];
    let total = match amount_of(entry.field("total_balance")) {
        Some(total) => total,
        None => return None,
    };
    let currency = match text_of(entry.field("currency")) {
        Some(currency) => currency,
        None => "CNY".to_owned(),
    };
    Some(
        BalanceInfo {
            total,
            top_up: amount_of(entry.field("topped_up_balance")),
            granted: amount_of(entry.field("granted_balance")),
            currency,
            checked_at,
        },
    )
}

/// What is reported of a reply with status 200 whose body is no JSON.
pub const BALANCE_NOT_JSON: &'static str = "余额响应非 JSON";

/// What a reply of the balance endpoint states: nothing unless its status is 200, and an error
/// where its body then is no JSON.
pub fn balance_reply(status: u16, body: &[u8], checked_at: i64) -> (r: Result<
    Option<BalanceInfo<String>>,
    String,
>)
    ensures
        r is Err <==> status == 200 && json_document(body@) is None,
        r matches Err(e) ==> e@ == BALANCE_NOT_JSON@,
        r matches Ok(b) ==> balance_texts(b) == if status == 200 {
            balance_in(json_document(body@)->Some_0, checked_at)
        } else {
            None
        },
{
    if status != 200 {
        return Ok(None);
    }
    match read_json(body) {
        Some(doc) => Ok(parse_balance_body(&doc, checked_at)),
        None => Err(BALANCE_NOT_JSON.to_owned()),
    }
}

/// A balance whose decimal texts were read as amounts.
pub fn priced_balance<M>(
    b: BalanceInfo<String>,
    total: M,
    top_up: Option<M>,
    granted: Option<M>,
) -> (r: BalanceInfo<M>)
    ensures
        r@ == (BalanceView {
            total,
            top_up,
            granted,
            currency: b.currency@,
            checked_at: b.checked_at,
        }),
{
    BalanceInfo { total, top_up, granted, currency: b.currency, checked_at: b.checked_at }
}

/// The address of the export of a window.
pub open spec fn export_address(platform: Seq<char>, start: int, end: int) -> Seq<char> {
    without_end_slashes(platform) + EXPORT_PATH@ + "?start="@ + int_text(start) + "&end="@
        + int_text(end) + "&tz="@ + int_text(TZ_SEC as int)
}

/// The address of the export of a window.
pub fn export_url(platform_base: &str, start_sec: i64, end_sec: i64) -> (url: String)
    ensures
        url@ == export_address(platform_base@, start_sec as int, end_sec as int),
{
    let mut url = trim_end_slashes(platform_base);
    url.append(EXPORT_PATH);
    url.append("?start=");
    url.append(i64_text(start_sec).as_str());
    url.append("&end=");
    url.append(i64_text(end_sec).as_str());
    url.append("&tz=");
    url.append(i64_text(TZ_SEC).as_str());
    url
}

/// The headers of an export request, each a name and a value.
pub fn export_headers(token: &str) -> (headers: Vec<(&'static str, String)>)
    ensures
        headers@.map_values(|h: (&'static str, String)| (h.0@, h.1@)) == seq![
            ("Authorization"@, "Bearer "@ + token@),
            ("User-Agent"@, USER_AGENT@),
            ("x-client-bundle-id"@, "com.deepseek.chat"@),
            ("x-client-platform"@, "web"@),
            ("x-client-version"@, "1.0.0"@),
            ("x-client-locale"@, "zh_CN"@),
            ("x-client-timezone-offset"@, int_text(TZ_SEC as int)),
        ],
{
    let mut headers: Vec<(&'static str, String)> = Vec::new();
    headers.push(("Authorization", bearer(token)));
    headers.push(("User-Agent", USER_AGENT.to_owned()));
    headers.push(("x-client-bundle-id", "com.deepseek.chat".to_owned()));
    headers.push(("x-client-platform", "web".to_owned()));
    headers.push(("x-client-version", "1.0.0".to_owned()));
    headers.push(("x-client-locale", "zh_CN".to_owned()));
    headers.push(("x-client-timezone-offset", i64_text(TZ_SEC)));
    headers
}

/// What is reported where an export request does not get through.
pub fn export_send_failure(url: &str, cause: &str) -> (text: String)
    ensures
        text@ == "导出请求失败: "@ + url@ + " ("@ + cause@ + ")"@,
{
    let mut text = "导出请求失败: ".to_owned();
    text.append(url);
    text.append(" (");
    text.append(cause);
    text.append(")");
    text
}

/// What an error of the export endpoint points to.
pub open spec fn export_hint(status: u16, code: int, biz_code: int) -> Seq<char> {
    if status == 401 || code == 40003 {
        "token 无效或已过期,请重新从浏览器 F12 复制"@
    } else if code == 40002 {
        "缺少 token"@
    } else if code == 40029 {
        "IP 访问受限(40029),请更换网络后重试"@
    } else if status == 429 || code == 429 {
        "请求过于频繁或触发反爬,稍后重试"@
    } else if biz_code == 1 {
        "INVALID_PARAM:start/end 必须为本地 0 点对齐的整点边界(已自动对齐,若仍报错请反馈)"@
    } else if status == 403 {
        "HTTP 403:访问被拒绝,检查 token 权限/网络环境"@
    } else if status == 404 {
        "HTTP 404:导出接口不存在,检查 platform_base 配置"@
    } else if status >= 500 {
        "平台服务端错误,稍后重试"@
    } else {
        ""@
    }
}

/// What an error of the export endpoint points to.
pub fn export_error_hint(status: u16, code: i64, biz_code: i64) -> (hint: &'static str)
    ensures
        hint@ == export_hint(status, code as int, biz_code as int),
{
    if status == 401 || code == 40003 {
        "token 无效或已过期,请重新从浏览器 F12 复制"
    } else if code == 40002 {
        "缺少 token"
    } else if code == 40029 {
        "IP 访问受限(40029),请更换网络后重试"
    } else if status == 429 || code == 429 {
        "请求过于频繁或触发反爬,稍后重试"
    } else if biz_code == 1 {
        "INVALID_PARAM:start/end 必须为本地 0 点对齐的整点边界(已自动对齐,若仍报错请反馈)"
    } else if status == 403 {
        "HTTP 403:访问被拒绝,检查 token 权限/网络环境"
    } else if status == 404 {
        "HTTP 404:导出接口不存在,检查 platform_base 配置"
    } else if status >= 500 {
        "平台服务端错误,稍后重试"
    } else {
        ""
    }
}

/// A text that is there and not empty.
pub open spec fn filled(text: Option<Seq<char>>) -> Option<Seq<char>> {
    match text {
        Some(t) => if t.len() > 0 {
            Some(t)
        } else {
            None
        },
        None => None,
    }
}

/// The text of the field `error`: its own field `message` where it has one, else itself.
pub open spec fn error_field(body: JsonView) -> Option<JsonView> {
    match body.field("error"@) {
        Some(e) => match e.field("message"@) {
            Some(m) => Some(m),
            None => Some(e),
        },
        None => None,
    }
}

/// The message of an error reply: the first that is not empty of `data.biz_msg`, `msg` and
/// `error`.
pub open spec fn error_message(body: JsonView) -> Seq<char> {
    match filled(opt_text(body.nested("data"@, "biz_msg"@))) {
        Some(t) => t,
        None => match filled(opt_text(body.field("msg"@))) {
            Some(t) => t,
            None => match filled(opt_text(error_field(body))) {
                Some(t) => t,
                None => "未知错误"@,
            },
        },
    }
}

/// An integer of an error reply; -1 where it is missing.
pub open spec fn code_or_minus_one(v: Option<JsonView>) -> int {
    match opt_int(v) {
        Some(n) => n as int,
        None => -1,
    }
}

/// What is reported of an error reply of the export endpoint.
pub open spec fn export_error_text(body: JsonView, status: u16) -> Seq<char> {
    let code = code_or_minus_one(body.field("code"@));
    let biz_code = code_or_minus_one(body.nested("data"@, "biz_code"@));
    "平台返回错误: "@ + error_message(body) + " (code="@ + int_text(code) + ", biz="@ + int_text(
        biz_code,
    ) + ", HTTP "@ + digits(status as nat) + ") "@ + export_hint(status, code, biz_code)
}

fn keep_filled(text: Option<String>) -> (r: Option<String>)
    ensures
        option_text(r) == filled(option_text(text)),
{
    match text {
        Some(t) => if t.as_str().unicode_len() > 0 {
            Some(t)
        } else {
            None
        },
        None => None,
    }
}

fn find_message(body: &Json) -> (text: String)
    ensures
        text@ == error_message(body@),
{
    if let Some(t) = keep_filled(text_of(body.nested("data", "biz_msg"))) {
        return t;
    }
    if let Some(t) = keep_filled(text_of(body.field("msg"))) {
        return t;
    }
    let error = match body.field("error") {
        Some(e) => match e.field("message") {
            Some(m) => Some(m),
            None => Some(e),
        },
        None => None,
    };
    match keep_filled(text_of(error)) {
        Some(t) => t,
        None => "未知错误".to_owned(),
    }
}

fn code_of(v: Option<&Json>) -> (code: i64)
    ensures
        code == code_or_minus_one(opt_view(v)),
{
    match int_of(v) {
        Some(n) => n,
        None => -1,
    }
}

/// What is reported of an error reply of the export endpoint.
pub fn export_error(body: &Json, status: u16) -> (text: String)
    ensures
        text@ == export_error_text(body@, status),
{
    let code: i64 = code_of(body.field("code"));
    let biz_code: i64 = code_of(body.nested("data", "biz_code"));
    let mut text = "平台返回错误: ".to_owned();
    text.append(find_message(body).as_str());
    text.append(" (code=");
    text.append(i64_text(code).as_str());
    text.append(", biz=");
    text.append(i64_text(biz_code).as_str());
    text.append(", HTTP ");
    text.append(u64_text(status as u64).as_str());
    text.append(") ");
    text.append(export_error_hint(status, code, biz_code));
    text
}

/// Whether a reply of the export endpoint brings an archive.
pub open spec fn is_archive(status: u16, content_type: Seq<char>) -> bool {
    status == 200 && has_text(content_type, "zip"@)
}

/// The archive that a reply of the export endpoint brings, or what is reported of it otherwise.
/// A body that is no JSON counts as `null`.
pub fn export_reply(status: u16, content_type: &str, raw: Vec<u8>) -> (r: Result<Vec<u8>, String>)
    ensures
        is_archive(status, content_type@) ==> r == Ok::<Vec<u8>, String>(raw),
        !is_archive(status, content_type@) ==> r is Err && r->Err_0@ == export_error_text(
            match json_document(raw@) {
                Some(doc) => doc,
                None => JsonView::Null,
            },
            status,
        ),
{
    if status == 200 && contains_text(content_type, "zip") {
        return Ok(raw);
    }
    let body = match read_json(raw.as_slice()) {
        Some(doc) => doc,
        None => Json::Null,
    };
    Err(export_error(&body, status))
}

/// The local midnight at which a day begins, in Unix seconds.
pub open spec fn local_midnight(day: int, tz: int) -> int {
    day * DAY_SECS - tz * 60
}

/// The export window of the last `days` days: from the local midnight at which its first day
/// begins to the local midnight at which today ends.
pub open spec fn window_of(now: int, days: int, tz: int) -> (int, int) {
    let day = local_day(now, tz);
    (local_midnight(day - (days - 1), tz), local_midnight(day + 1, tz))
}

/// A number in signed arithmetic of 64 bits, which wraps around.
pub open spec fn wrapped(v: int) -> int {
    (v + 0x8000_0000_0000_0000) % 0x1_0000_0000_0000_0000 - 0x8000_0000_0000_0000
}

fn wrap(v: i128) -> (r: i64)
    requires
        -0x10_0000_0000_0000_0000_0000 < v < 0x10_0000_0000_0000_0000_0000,
    ensures
        r == wrapped(v as int),
{
    let shifted: u128 = (v + 0x100_0000_0000_0000_0000_0000 + 0x8000_0000_0000_0000) as u128;
    let low: u128 = shifted % 0x1_0000_0000_0000_0000;
    (low as i128 - 0x8000_0000_0000_0000) as i64
}

/// The export window of the last `days` days at `now`.
pub fn window_at(now: i64, days: i64, tz_offset_min: i32) -> (window: (i64, i64))
    ensures
        window.0 == wrapped(window_of(now as int, days as int, tz_offset_min as int).0),
        window.1 == wrapped(window_of(now as int, days as int, tz_offset_min as int).1),
{
    let day: i128 = local_day_at(now, tz_offset_min) as i128;
    let shift: i128 = tz_offset_min as i128 * 60;
    let start: i128 = (day - (days as i128 - 1)) * 86_400 - shift;
    let end: i128 = (day + 1) * 86_400 - shift;
    (wrap(start), wrap(end))
}

/// The export window of the last `days` days.
pub fn default_window(days: i64, tz_offset_min: i32) -> (window: (i64, i64))
    ensures
        exists|now: i64|
            window.0 == wrapped(
                (#[trigger] window_of(now as int, days as int, tz_offset_min as int)).0,
            ) && window.1 == wrapped(window_of(now as int, days as int, tz_offset_min as int).1),
{
    let now = unix_now();
    window_at(now, days, tz_offset_min)
}

/// A number that 64 bits hold stays what it is.
pub proof fn law_wrapped_keeps(v: i64)
    ensures
        wrapped(v as int) == v,
{
}

/// Both ends of the export window are local midnights, the window is `days` days long, and its
/// last day is the current one.
pub proof fn law_window(now: int, days: int, tz: int)
    ensures
        ({
            let w = window_of(now, days, tz);
            &&& (w.0 + tz * 60) % (DAY_SECS as int) == 0
            &&& (w.1 + tz * 60) % (DAY_SECS as int) == 0
            &&& w.1 - w.0 == days * DAY_SECS
            &&& w.1 - DAY_SECS <= now < w.1
            &&& days >= 1 ==> w.0 <= now
        }),
{
}

/// The balance in yuan is preferred wherever it stands in the list.
pub proof fn law_yuan_first(entries: Seq<JsonView>, k: int)
    requires
        0 <= k < entries.len(),
        in_yuan(entries[k]),
    ensures
        chosen_entry(entries) matches Some(e) && in_yuan(e),
{
    lemma_yuan_found(entries, 0, k);
}

proof fn lemma_yuan_found(entries: Seq<JsonView>, i: int, k: int)
    requires
        0 <= i <= k < entries.len(),
        in_yuan(entries[k]),
    ensures
        first_in_yuan(entries, i) matches Some(e) && in_yuan(e),
    decreases k - i,
{
    if !in_yuan(entries[i]) {
        lemma_yuan_found(entries, i + 1, k);
    }
}

} // verus!
