//! Laws of the platform's addresses and replies.
use vstd::prelude::*;

use crate::deepseek::{
    amount_in, balance_address, balance_hint, balance_in, chosen_entry, code_or_minus_one,
    error_message, export_address, export_error_text, export_hint, first_in_yuan, is_archive,
    window_of, wrapped, BalanceTexts, BALANCE_CONNECT_SECS, BALANCE_PATH, EXPORT_CONNECT_SECS,
    EXPORT_PATH, TZ_SEC, USER_AGENT,
};
use crate::engine::{CARD_ID, CARD_NAME, EXPORT_DAYS};
use crate::json::{find_field, JsonView};
use crate::number::is_fraction;
use crate::text::{digits, has_text, int_text, without_end_slashes};

verus! {

/// A field of an object is the first of its name; there is none where no field has the name, nor in
/// anything but an object.
pub proof fn law_fields(fields: Seq<(Seq<char>, JsonView)>, key: Seq<char>)
    ensures
        find_field(fields, key) is None <==> forall|i: int|
            0 <= i < fields.len() ==> (#[trigger] fields[i]).0 != key,
        forall|k: int|
            0 <= k < fields.len() && (#[trigger] fields[k]).0 == key && (forall|i: int|
                0 <= i < k ==> (#[trigger] fields[i]).0 != key) ==> find_field(fields, key) == Some(
                fields[k].1,
            ),
    decreases fields.len(),
{
    if fields.len() > 0 && fields[0].0 != key {
        let rest = fields.skip(1);
        law_fields(rest, key);
        assert forall|i: int| 0 <= i < rest.len() implies rest[i] == fields[i + 1] by {}
        if forall|i: int| 0 <= i < fields.len() ==> (#[trigger] fields[i]).0 != key {
            assert forall|i: int| 0 <= i < rest.len() implies (#[trigger] rest[i]).0 != key by {
                assert(rest[i] == fields[i + 1]);
            }
        }
        if find_field(fields, key) is None {
            assert forall|i: int| 0 <= i < fields.len() implies (#[trigger] fields[i]).0 != key by {
                if i > 0 {
                    assert(rest[i - 1].0 != key);
                }
            }
        }
        assert forall|k: int|
            0 <= k < fields.len() && (#[trigger] fields[k]).0 == key && (forall|i: int|
                0 <= i < k ==> (#[trigger] fields[i]).0 != key) implies find_field(fields, key)
            == Some(fields[k].1) by {
            assert(rest[k - 1].0 == key);
            assert forall|i: int| 0 <= i < k - 1 implies (#[trigger] rest[i]).0 != key by {
                assert(rest[i] == fields[i + 1]);
            }
        }
    }
}

/// Only objects have fields.
pub proof fn law_only_objects_have_fields(v: JsonView, outer: Seq<char>, inner: Seq<char>)
    ensures
        !(v is Object) ==> v.field(outer) is None,
        v matches JsonView::Object(fields) ==> v.field(outer) == find_field(fields, outer),
        v.field(outer) is None ==> v.nested(outer, inner) is None,
        v.field(outer) matches Some(w) ==> v.nested(outer, inner) == w.field(inner),
{
}

/// The amount that a field states: a number as it is written, a text where it is a fraction,
/// nothing otherwise.
pub proof fn law_amounts(i: Option<i64>, text: Seq<char>, v: JsonView)
    ensures
        amount_in(None) is None,
        amount_in(Some(JsonView::Number(i, text))) == Some(text),
        is_fraction(text) ==> amount_in(Some(JsonView::Text(text))) == Some(text),
        !is_fraction(text) ==> amount_in(Some(JsonView::Text(text))) is None,
        !(v is Number) && !(v is Text) ==> amount_in(Some(v)) is None,
{
}

/// Whether an entry of the balance list names the yuan.
pub open spec fn names_yuan(entry: JsonView) -> bool {
    entry.field("currency"@) == Some(JsonView::Text("CNY"@))
}

proof fn lemma_first_in_yuan(entries: Seq<JsonView>, k: int)
    requires
        0 <= k <= entries.len(),
    ensures
        first_in_yuan(entries, k) is None <==> forall|i: int|
            k <= i < entries.len() ==> !names_yuan(#[trigger] entries[i]),
        forall|n: int|
            k <= n < entries.len() && names_yuan(#[trigger] entries[n]) && (forall|i: int|
                k <= i < n ==> !names_yuan(#[trigger] entries[i])) ==> first_in_yuan(entries, k)
                == Some(entries[n]),
    decreases entries.len() - k,
{
    if k < entries.len() {
        lemma_first_in_yuan(entries, k + 1);
    }
}

/// Of several entries the first in yuan counts, wherever it stands; without one the first entry;
/// without any entry there is no balance.
pub proof fn law_which_entry_counts(entries: Seq<JsonView>)
    ensures
        chosen_entry(entries) is None <==> entries.len() == 0,
        entries.len() > 0 && (forall|i: int|
            0 <= i < entries.len() ==> !names_yuan(#[trigger] entries[i])) ==> chosen_entry(entries)
            == Some(entries[0]),
        forall|n: int|
            0 <= n < entries.len() && names_yuan(#[trigger] entries[n]) && (forall|i: int|
                0 <= i < n ==> !names_yuan(#[trigger] entries[i])) ==> chosen_entry(entries)
                == Some(entries[n]),
{
    lemma_first_in_yuan(entries, 0);
}

/// A reply with one entry states that entry's amounts, each under its own name; what the entry
/// leaves out is left out. It states nothing where the platform says that the balance is not
/// available, and nothing without a total.
pub proof fn law_balance_of_one_entry(
    available: Option<JsonView>,
    entry: JsonView,
    body: JsonView,
    checked_at: i64,
)
    requires
        body.field("is_available"@) == available,
        body.field("balance_infos"@) == Some(JsonView::List(seq![entry])),
    ensures
        ({
            let total = amount_in(entry.field("total_balance"@));
            let r = balance_in(body, checked_at);
            &&& r is Some <==> available != Some(JsonView::Bool(false)) && total is Some
            &&& r matches Some(b) ==> {
                &&& total == Some(b.total)
                &&& b.top_up == amount_in(entry.field("topped_up_balance"@))
                &&& b.granted == amount_in(entry.field("granted_balance"@))
                &&& entry.field("currency"@) matches Some(JsonView::Text(c)) ==> b.currency == c
                &&& !(entry.field("currency"@) matches Some(JsonView::Text(c))) ==> b.currency
                    == "CNY"@
                &&& b.checked_at == checked_at
            }
        }),
{
    law_which_entry_counts(seq![entry]);
    if names_yuan(seq![entry][0]) {
        assert(chosen_entry(seq![entry]) == Some(seq![entry][0]));
    }
}

/// A reply with several entries states what the entry that counts states by itself.
pub proof fn law_balance_of_many_entries(
    body: JsonView,
    single: JsonView,
    entries: Seq<JsonView>,
    entry: JsonView,
    checked_at: i64,
)
    requires
        body.field("balance_infos"@) == Some(JsonView::List(entries)),
        single.field("balance_infos"@) == Some(JsonView::List(seq![entry])),
        body.field("is_available"@) == single.field("is_available"@),
        chosen_entry(entries) == Some(entry),
    ensures
        balance_in(body, checked_at) == balance_in(single, checked_at),
{
    law_which_entry_counts(seq![entry]);
    if names_yuan(seq![entry][0]) {
        assert(chosen_entry(seq![entry]) == Some(seq![entry][0]));
    }
}

/// A reply without a list of entries states nothing.
pub proof fn law_balance_needs_a_list(body: JsonView, checked_at: i64)
    ensures
        !(body.field("balance_infos"@) matches Some(JsonView::List(entries))) ==> balance_in(
            body,
            checked_at,
        ) is None,
        body.field("balance_infos"@) == Some(JsonView::List(Seq::empty())) ==> balance_in(
            body,
            checked_at,
        ) is None,
{
    assert(chosen_entry(Seq::empty()) is None) by {
        law_which_entry_counts(Seq::empty());
    }
}

proof fn lemma_reply_names()
    ensures
        "currency"@ != "total_balance"@,
        "currency"@ != "topped_up_balance"@,
        "currency"@ != "granted_balance"@,
        "total_balance"@ != "topped_up_balance"@,
        "total_balance"@ != "granted_balance"@,
        "topped_up_balance"@ != "granted_balance"@,
        "is_available"@ != "balance_infos"@,
{
    reveal_strlit("currency");
    reveal_strlit("total_balance");
    reveal_strlit("topped_up_balance");
    reveal_strlit("granted_balance");
    reveal_strlit("is_available");
    reveal_strlit("balance_infos");
    assert("currency"@.len() == 8);
    assert("total_balance"@.len() == 13);
    assert("topped_up_balance"@.len() == 17);
    assert("granted_balance"@.len() == 15);
    assert("is_available"@.len() == 12);
    assert("balance_infos"@.len() == 13);
}

/// The platform's reply as it documents it: currency, total, what was topped up and what was
/// granted come out as they were stated.
pub proof fn law_documented_balance(
    c: Seq<char>,
    t: Seq<char>,
    u: Seq<char>,
    g: Seq<char>,
    checked_at: i64,
)
    requires
        is_fraction(t),
        is_fraction(u),
        is_fraction(g),
    ensures
        ({
            let entry = JsonView::Object(
                seq![
                    ("currency"@, JsonView::Text(c)),
                    ("total_balance"@, JsonView::Text(t)),
                    ("topped_up_balance"@, JsonView::Text(u)),
                    ("granted_balance"@, JsonView::Text(g)),
                ],
            );
            let body = JsonView::Object(
                seq![
                    ("is_available"@, JsonView::Bool(true)),
                    ("balance_infos"@, JsonView::List(seq![entry])),
                ],
            );
            balance_in(body, checked_at) == Some(
                BalanceTexts {
                    total: t,
                    top_up: Some(u),
                    granted: Some(g),
                    currency: c,
                    checked_at,
                },
            )
        }),
{
    let fields = seq![
        ("currency"@, JsonView::Text(c)),
        ("total_balance"@, JsonView::Text(t)),
        ("topped_up_balance"@, JsonView::Text(u)),
        ("granted_balance"@, JsonView::Text(g)),
    ];
    let entry = JsonView::Object(fields);
    let outer = seq![
        ("is_available"@, JsonView::Bool(true)),
        ("balance_infos"@, JsonView::List(seq![entry])),
    ];
    let body = JsonView::Object(outer);
    lemma_reply_names();
    law_fields(fields, "currency"@);
    law_fields(fields, "total_balance"@);
    law_fields(fields, "topped_up_balance"@);
    law_fields(fields, "granted_balance"@);
    law_fields(outer, "is_available"@);
    law_fields(outer, "balance_infos"@);
    assert(fields[0].0 == "currency"@);
    assert(fields[1].0 == "total_balance"@);
    assert(fields[2].0 == "topped_up_balance"@);
    assert(fields[3].0 == "granted_balance"@);
    assert(outer[0].0 == "is_available"@);
    assert(outer[1].0 == "balance_infos"@);
    law_balance_of_one_entry(body.field("is_available"@), entry, body, checked_at);
}

/// An address without the slashes at its end is its front, ends in no slash, and leaves out nothing
/// but slashes.
pub proof fn law_end_slashes(s: Seq<char>)
    ensures
        without_end_slashes(s).is_prefix_of(s),
        without_end_slashes(s).len() > 0 ==> without_end_slashes(s).last() != '/',
        forall|i: int| without_end_slashes(s).len() <= i < s.len() ==> #[trigger] s[i] == '/',
    decreases s.len(),
{
    if s.len() > 0 && s.last() == '/' {
        law_end_slashes(s.drop_last());
        assert forall|i: int| without_end_slashes(s).len() <= i < s.len() implies #[trigger] s[i]
            == '/' by {
            if i < s.len() - 1 {
                assert(s.drop_last()[i] == s[i]);
            }
        }
    }
}

/// Addresses go below the base, with their path and the window in seconds; slashes at the end of
/// the base make no difference.
pub proof fn law_addresses(base: Seq<char>, start: int, end: int)
    ensures
        balance_address(base) == without_end_slashes(base) + "/user/balance"@,
        balance_address(base.push('/')) == balance_address(base),
        export_address(base, start, end) == without_end_slashes(base)
            + "/api/v0/usage/export?start="@ + int_text(start) + "&end="@ + int_text(end)
            + "&tz=28800"@,
        export_address(base.push('/'), start, end) == export_address(base, start, end),
{
    assert(base.push('/').drop_last() =~= base);
    reveal_strlit("/api/v0/usage/export");
    reveal_strlit("?start=");
    reveal_strlit("/api/v0/usage/export?start=");
    reveal_strlit("&tz=");
    reveal_strlit("&tz=28800");
    reveal_with_fuel(digits, 6);
    assert("/api/v0/usage/export"@ + "?start="@ =~= "/api/v0/usage/export?start="@);
    assert(int_text(28_800) =~= seq!['2', '8', '8', '0', '0']);
    assert("&tz="@ + int_text(28_800) =~= "&tz=28800"@);
    let b = without_end_slashes(base);
    let x = int_text(start);
    let y = int_text(end);
    assert(export_address(base, start, end) =~= b + "/api/v0/usage/export?start="@ + x + "&end="@
        + y + "&tz=28800"@);
}

/// A reply brings an archive exactly where its status is 200 and its type speaks of a zip.
pub proof fn law_archives(status: u16, a: Seq<char>, b: Seq<char>, content_type: Seq<char>)
    ensures
        is_archive(status, content_type) <==> status == 200 && has_text(content_type, "zip"@),
        is_archive(200, a + "zip"@ + b),
{
    let t = a + "zip"@ + b;
    let i = a.len() as int;
    assert(t.subrange(i, i + "zip"@.len()) =~= "zip"@);
}

/// Whether a field holds a text that is not empty.
pub open spec fn holds_text(v: Option<JsonView>, t: Seq<char>) -> bool {
    t.len() > 0 && v == Some(JsonView::Text(t))
}

/// Whether a field holds no text, or an empty one.
pub open spec fn lacks_text(v: Option<JsonView>) -> bool {
    !(v matches Some(JsonView::Text(t)) && t.len() > 0)
}

/// The message of an error reply is the first text that is not empty of the business message, the
/// message and the error, whose own message counts in its place where it has one; what is no text
/// counts as missing.
pub proof fn law_error_messages(body: JsonView, t: Seq<char>)
    ensures
        ({
            let biz = body.nested("data"@, "biz_msg"@);
            let msg = body.field("msg"@);
            let inner = body.nested("error"@, "message"@);
            let error = if inner is Some {
                inner
            } else {
                body.field("error"@)
            };
            &&& holds_text(biz, t) ==> error_message(body) == t
            &&& lacks_text(biz) && holds_text(msg, t) ==> error_message(body) == t
            &&& lacks_text(biz) && lacks_text(msg) && holds_text(error, t) ==> error_message(body) == t
            &&& lacks_text(biz) && lacks_text(msg) && lacks_text(error) ==> error_message(body) == "未知错误"@
        }),
{
}

/// The codes of an error reply, -1 where they are missing, and the hint that they give stand in
/// what is reported of it.
pub proof fn law_error_codes(body: JsonView, status: u16, code: int, biz: int, n: i64, s: Seq<char>)
    requires
        code == code_or_minus_one(body.field("code"@)),
        biz == code_or_minus_one(body.nested("data"@, "biz_code"@)),
    ensures
        code_or_minus_one(None) == -1,
        code_or_minus_one(Some(JsonView::Number(Some(n), s))) == n,
        code_or_minus_one(Some(JsonView::Number(None, s))) == -1,
        code_or_minus_one(Some(JsonView::Text(s))) == -1,
        export_error_text(body, status) == "平台返回错误: "@ + error_message(body) + " (code="@
            + int_text(code) + ", biz="@ + int_text(biz) + ", HTTP "@ + digits(status as nat)
            + ") "@ + export_hint(status, code, biz),
{
}

/// Whether a code by itself says what went wrong.
pub open spec fn names_cause(code: int) -> bool {
    code == 40002 || code == 40003 || code == 40029 || code == 429
}

/// Hints are given for the listed statuses and codes alone, and those for a bad token come before
/// any other.
pub proof fn law_hints(status: u16, code: int, biz: int)
    ensures
        balance_hint(status) == ""@ <==> !(status == 401 || status == 402 || status == 403 || status
            == 404 || status == 429 || 500 <= status <= 599),
        500 <= status <= 599 ==> balance_hint(status) == balance_hint(503),
        export_hint(status, code, biz) == ""@ <==> !(status == 401 || status == 403 || status == 404
            || status == 429 || status >= 500 || code == 40002 || code == 40003 || code == 40029
            || code == 429 || biz == 1),
        status == 401 || code == 40003 ==> export_hint(status, code, biz) == export_hint(
            401,
            -1,
            -1,
        ),
        status != 401 && code == 40002 ==> export_hint(status, code, biz) == export_hint(
            200,
            40002,
            -1,
        ),
        status != 401 && code == 40029 ==> export_hint(status, code, biz) == export_hint(
            200,
            40029,
            -1,
        ),
        status != 401 && code != 40003 && code != 40002 && code != 40029 && (status == 429 || code
            == 429) ==> export_hint(status, code, biz) == export_hint(429, -1, -1),
        status != 401 && status != 429 && biz == 1 && !names_cause(code) ==> export_hint(
            status,
            code,
            biz,
        ) == export_hint(200, -1, 1),
        status == 403 && biz != 1 && !names_cause(code) ==> export_hint(status, code, biz)
            == export_hint(403, -1, -1),
        status == 404 && biz != 1 && !names_cause(code) ==> export_hint(status, code, biz)
            == export_hint(404, -1, -1),
        status >= 500 && biz != 1 && !names_cause(code) ==> export_hint(status, code, biz)
            == export_hint(503, -1, -1),
{
    reveal_strlit("");
    reveal_strlit("(401 未授权:API Key 无效/过期)");
    reveal_strlit("(402 余额不足/欠费)");
    reveal_strlit("(403 禁止访问:检查 key 权限或 IP)");
    reveal_strlit("(404 接口不存在:检查 base_url)");
    reveal_strlit("(429 请求过频/限流,稍后重试)");
    reveal_strlit("(服务端错误,稍后重试)");
    reveal_strlit("token 无效或已过期,请重新从浏览器 F12 复制");
    reveal_strlit("缺少 token");
    reveal_strlit("IP 访问受限(40029),请更换网络后重试");
    reveal_strlit("请求过于频繁或触发反爬,稍后重试");
    reveal_strlit(
        "INVALID_PARAM:start/end 必须为本地 0 点对齐的整点边界(已自动对齐,若仍报错请反馈)",
    );
    reveal_strlit("HTTP 403:访问被拒绝,检查 token 权限/网络环境");
    reveal_strlit("HTTP 404:导出接口不存在,检查 platform_base 配置");
    reveal_strlit("平台服务端错误,稍后重试");
    assert(""@.len() == 0);
}

/// A number in 64 bits differs from the number by a multiple of 2 to the 64.
pub proof fn law_wrapping(v: int)
    ensures
        -0x8000_0000_0000_0000 <= wrapped(v) < 0x8000_0000_0000_0000,
        (wrapped(v) - v) % 0x1_0000_0000_0000_0000 == 0,
{
}

/// An export covers thirty days, whose last one is today.
pub proof fn law_exported_days(now: int, tz: int)
    ensures
        ({
            let w = window_of(now, EXPORT_DAYS as int, tz);
            &&& w.1 - w.0 == 30 * 86_400
            &&& (w.1 + tz * 60) % 86_400 == 0
            &&& w.1 - 86_400 <= now < w.1
        }),
{
}

/// The fixed parts of a request: paths, zone, browser, and how long a connection may take.
pub proof fn law_fixed_parts()
    ensures
        BALANCE_PATH@ == "/user/balance"@,
        EXPORT_PATH@ == "/api/v0/usage/export"@,
        TZ_SEC == 28_800,
        USER_AGENT@
            == "Mozilla/5.0 (X11; Linux x86_64; rv:152.0) Gecko/20100101 Firefox/152.0"@,
        BALANCE_CONNECT_SECS == 10,
        EXPORT_CONNECT_SECS == 60,
        CARD_ID@ == "deepseek-usage-card"@,
        CARD_NAME@ == "DeepSeek 用量"@,
{
}

} // verus!
