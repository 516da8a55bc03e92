use dsboard::dates::unix_now;
use dsboard::deepseek::{
    balance_http_hint, balance_reply, balance_send_failure, balance_url, bearer, default_window,
    export_error_hint, export_headers, export_reply, export_send_failure, export_url,
    parse_balance_body, priced_balance, window_at, BALANCE_NOT_JSON, TZ_SEC, USER_AGENT,
};
use dsboard::json::{int_of, read_json, Json};
use dsboard::state::BalanceInfo;

#[test]
fn default_window_aligns_to_local_midnight() {
    let (start, end) = default_window(30, 480);
    assert_eq!((start + 28_800).rem_euclid(86_400), 0, "start 须为本地 0 点");
    assert_eq!((end + 28_800).rem_euclid(86_400), 0, "end 须为本地 0 点");
    assert_eq!(end - start, 30 * 86_400);
    assert!(start < unix_now() && unix_now() < end);
}

#[test]
fn default_window_handles_other_timezones() {
    let (start, end) = default_window(7, 0);
    assert_eq!(start.rem_euclid(86_400), 0);
    assert_eq!(end.rem_euclid(86_400), 0);
    assert_eq!(end - start, 7 * 86_400);
}

#[test]
fn export_error_hint_covers_known_platform_codes() {
    assert!(export_error_hint(200, 40002, -1).contains("缺少 token"));
    assert!(export_error_hint(200, 40003, -1).contains("token 无效或已过期"));
    assert!(export_error_hint(401, -1, -1).contains("token 无效或已过期"));
    assert!(export_error_hint(200, 40029, -1).contains("IP 访问受限"));
    assert!(export_error_hint(200, -1, 1).contains("INVALID_PARAM"));
    assert!(export_error_hint(403, -1, -1).contains("403"));
    assert!(export_error_hint(404, -1, -1).contains("404"));
    assert!(export_error_hint(503, -1, -1).contains("服务端错误"));
    assert!(export_error_hint(429, -1, -1).contains("频繁"));
    assert_eq!(export_error_hint(418, -1, -1), "");
}

#[test]
fn balance_http_hint_covers_common_statuses() {
    assert!(balance_http_hint(401).contains("401"));
    assert!(balance_http_hint(402).contains("余额不足"));
    assert!(balance_http_hint(403).contains("403"));
    assert!(balance_http_hint(404).contains("404"));
    assert!(balance_http_hint(429).contains("429"));
    assert!(balance_http_hint(503).contains("服务端错误"));
    assert_eq!(balance_http_hint(200), "");
}

#[test]
fn hints_at_their_borders() {
    assert_eq!(balance_http_hint(500), "(服务端错误,稍后重试)");
    assert_eq!(balance_http_hint(599), "(服务端错误,稍后重试)");
    assert_eq!(balance_http_hint(600), "");
    assert_eq!(export_error_hint(600, -1, -1), "平台服务端错误,稍后重试");
    assert_eq!(export_error_hint(401, 40002, 1), export_error_hint(200, 40003, -1));
    assert_eq!(export_error_hint(403, 429, 1), "请求过于频繁或触发反爬,稍后重试");
}

#[test]
fn windows_at_given_times() {
    assert_eq!(window_at(1_754_000_000, 30, 480), (1_751_472_000, 1_754_064_000));
    assert_eq!(window_at(0, 1, 0), (0, 86_400));
    assert_eq!(window_at(-1, 1, 0), (-86_400, 0));
    assert_eq!(window_at(86_400, 0, 0), (172_800, 172_800));
    let day: i128 = i64::MAX as i128 / 86_400;
    assert_eq!(window_at(i64::MAX, 1, 0), ((day * 86_400) as i64, ((day + 1) * 86_400) as i64));
}

#[test]
fn addresses_and_headers() {
    assert_eq!(balance_url("https://api.deepseek.com//"), "https://api.deepseek.com/user/balance");
    assert_eq!(
        export_url("https://platform.deepseek.com/", -5, 86_400),
        "https://platform.deepseek.com/api/v0/usage/export?start=-5&end=86400&tz=28800"
    );
    assert_eq!(bearer("sk"), "Bearer sk");
    let headers = export_headers("t");
    assert_eq!(headers.len(), 7);
    assert_eq!(headers[0], ("Authorization", "Bearer t".to_string()));
    assert_eq!(headers[1], ("User-Agent", USER_AGENT.to_string()));
    assert_eq!(headers[6], ("x-client-timezone-offset", TZ_SEC.to_string()));
    assert_eq!(balance_send_failure("u", "c"), "余额请求失败: u (c)");
    assert_eq!(export_send_failure("u", "c"), "导出请求失败: u (c)");
}

fn balance(body: &str) -> Option<BalanceInfo<String>> {
    balance_reply(200, body.as_bytes(), 7).unwrap()
}

#[test]
fn balances_as_the_platform_states_them() {
    let b = balance(
        r#"{"is_available": true, "balance_infos": [{"currency": "USD", "total_balance": "1"},
            {"currency": "CNY", "total_balance": "128.47", "topped_up_balance": 118.47,
             "granted_balance": "none"}]}"#,
    )
    .unwrap();
    assert_eq!(b.total, "128.47");
    assert_eq!(b.top_up, Some("118.47".to_string()));
    assert_eq!(b.granted, None);
    assert_eq!(b.currency, "CNY");
    assert_eq!(b.checked_at, 7);
    let b = balance(r#"{"balance_infos": [{"currency": "USD", "total_balance": 3}]}"#).unwrap();
    assert_eq!((b.total.as_str(), b.currency.as_str()), ("3", "USD"));
    let b = balance(r#"{"balance_infos": [{"total_balance": "0.5"}]}"#).unwrap();
    assert_eq!(b.currency, "CNY");
    let b = priced_balance(b, 0.5, None, Some(0.25));
    assert_eq!((b.total, b.top_up, b.granted), (0.5, None, Some(0.25)));
}

#[test]
fn replies_without_a_balance() {
    assert_eq!(balance(r#"{"is_available": false, "balance_infos": [{"total_balance": 1}]}"#), None);
    assert_eq!(balance(r#"{"balance_infos": []}"#), None);
    assert_eq!(balance(r#"{"balance_infos": {}}"#), None);
    assert_eq!(balance(r#"{"balance_infos": [{"total_balance": "much"}]}"#), None);
    assert_eq!(balance(r#"{"balance_infos": [{"total_balance": true}]}"#), None);
    assert_eq!(balance_reply(500, br#"{"balance_infos": [{"total_balance": 1}]}"#, 7), Ok(None));
    assert_eq!(balance_reply(500, b"<html>", 7), Ok(None));
    assert_eq!(balance("null"), None);
    assert_eq!(parse_balance_body(&Json::Null, 7), None);
}

#[test]
fn balance_replies_that_are_no_json() {
    assert_eq!(balance_reply(200, b"<html>", 7), Err("余额响应非 JSON".to_string()));
    assert_eq!(balance_reply(200, b"", 7), Err(BALANCE_NOT_JSON.to_string()));
}

#[test]
fn archives_come_through() {
    assert_eq!(export_reply(200, "application/zip", vec![1, 2]), Ok(vec![1, 2]));
    assert_eq!(export_reply(200, "application/x-zip-compressed", vec![]), Ok(vec![]));
}

#[test]
fn export_errors_as_they_are_read() {
    let failed = |status: u16, body: &str| {
        export_reply(status, "application/json", body.as_bytes().to_vec()).unwrap_err()
    };
    assert_eq!(
        failed(200, r#"{"code":40003,"msg":"gone","data":{"biz_code":2,"biz_msg":"expired"}}"#),
        "平台返回错误: expired (code=40003, biz=2, HTTP 200) token 无效或已过期,请重新从浏览器 F12 复制"
    );
    assert_eq!(
        failed(418, r#"{"msg":"gone","data":{"biz_msg":""}}"#),
        "平台返回错误: gone (code=-1, biz=-1, HTTP 418) "
    );
    assert_eq!(
        failed(404, r#"{"error":{"message":"lost"}}"#),
        "平台返回错误: lost (code=-1, biz=-1, HTTP 404) HTTP 404:导出接口不存在,检查 platform_base 配置"
    );
    assert_eq!(failed(418, r#"{"error":"lost"}"#), "平台返回错误: lost (code=-1, biz=-1, HTTP 418) ");
    assert_eq!(
        failed(418, r#"{"error":{"message":5}}"#),
        "平台返回错误: 未知错误 (code=-1, biz=-1, HTTP 418) "
    );
    assert_eq!(failed(418, "<html>"), "平台返回错误: 未知错误 (code=-1, biz=-1, HTTP 418) ");
    assert_eq!(
        export_reply(500, "application/zip", vec![]),
        Err("平台返回错误: 未知错误 (code=-1, biz=-1, HTTP 500) 平台服务端错误,稍后重试".to_string())
    );
}

#[test]
fn json_documents() {
    let doc = read_json(br#"{"a": [null, true, -3, 1.5, "x"], "b": {"c": 18446744073709551615}}"#)
        .unwrap();
    let list = match doc.field("a") {
        Some(Json::List(list)) => list,
        _ => panic!("no list"),
    };
    assert_eq!(list.len(), 5);
    assert!(matches!(list[0], Json::Null));
    assert!(matches!(list[1], Json::Bool(true)));
    assert_eq!(int_of(Some(&list[2])), Some(-3));
    assert_eq!(int_of(Some(&list[3])), None);
    assert!(matches!(&list[3], Json::Number(n) if n.text == "1.5"));
    assert!(matches!(&list[4], Json::Text(s) if s == "x"));
    assert_eq!(int_of(doc.nested("b", "c")), None);
    assert!(matches!(doc.nested("b", "c"), Some(Json::Number(n)) if n.text == "18446744073709551615"));
    assert!(doc.field("c").is_none());
    assert!(read_json(b"{").is_none());
}
