use std::io::Write;

use dsboard::import::{
    apply_usage, import_tables, import_zip_bytes, priced_rows, table_of_name, Table,
};
use dsboard::state::{DataFile, DayModelUsage};
use dsboard::tables::{
    amount_line, cost_line, line_err, parse_amount_csv, parse_cost_csv, parse_date, strip_bom, CsvFault,
    CsvRow, ImportError, TYPE_CALLS, TYPE_HIT, TYPE_MISS, TYPE_OUTPUT,
};
use dsboard::usage::{aggregate, UsageTotals};

const AMOUNT_SAMPLE: &str = "\u{feff}user_id,start_time_iso,end_time_iso,model,api_key_name,api_key,type,price,amount\n00000000-0000-0000-0000-000000000000,2026-07-13T00:00:00+08:00,2026-07-14T00:00:00+08:00,deepseek-v4-pro,key-a,sk-******example******,input_cache_hit_tokens,0.000000025,105402624\n00000000-0000-0000-0000-000000000000,2026-07-13T00:00:00+08:00,2026-07-14T00:00:00+08:00,deepseek-v4-pro,key-a,sk-******example******,input_cache_miss_tokens,0.000003,1885620\n00000000-0000-0000-0000-000000000000,2026-07-13T00:00:00+08:00,2026-07-14T00:00:00+08:00,deepseek-v4-pro,key-a,sk-******example******,request_count,,666\n00000000-0000-0000-0000-000000000000,2026-07-13T00:00:00+08:00,2026-07-14T00:00:00+08:00,deepseek-v4-pro,key-a,sk-******example******,output_tokens,0.000006,352921\n00000000-0000-0000-0000-000000000000,2026-07-13T00:00:00+08:00,2026-07-14T00:00:00+08:00,deepseek-v4-flash,key-b,sk-******example******,request_count,,88\n00000000-0000-0000-0000-000000000000,2026-07-13T00:00:00+08:00,2026-07-14T00:00:00+08:00,deepseek-v4-flash,key-b,sk-******example******,output_tokens,0.000006,20209\n";
const COST_SAMPLE: &str = "\u{feff}user_id,start_time_iso,end_time_iso,model,wallet_type,cost,currency\n00000000-0000-0000-0000-000000000000,2026-07-13T00:00:00+08:00,2026-07-14T00:00:00+08:00,deepseek-v4-pro,Paid,10.4094516000000000,CNY\n00000000-0000-0000-0000-000000000000,2026-07-13T00:00:00+08:00,2026-07-14T00:00:00+08:00,deepseek-v4-flash,Paid,0.9667603600000000,CNY\n";

const AMOUNT_HEADER: &str =
    "user_id,start_time_iso,end_time_iso,model,api_key_name,api_key,type,price,amount\n";
const COST_HEADER: &str =
    "user_id,start_time_iso,end_time_iso,model,wallet_type,cost,currency\n";

fn cost_sum(t: &UsageTotals) -> f64 {
    let mut sum = 0.0;
    for c in &t.costs {
        sum += c.parse::<f64>().unwrap();
    }
    sum
}

fn entry<'a>(list: &'a [UsageTotals], date: &str, model: &str) -> &'a UsageTotals {
    list.iter().find(|t| t.date == date && t.model == model).expect("组合应存在")
}

fn archive(entries: &[(&str, &[u8])]) -> Vec<u8> {
    let mut writer = zip::ZipWriter::new(std::io::Cursor::new(Vec::new()));
    for (name, bytes) in entries {
        writer.start_file(*name, zip::write::SimpleFileOptions::default()).unwrap();
        writer.write_all(bytes).unwrap();
    }
    writer.finish().unwrap().into_inner()
}

fn amount_row(date: &str, model: &str, kind: &str, amount: &str) -> String {
    format!("u,{}T00:00:00+08:00,x,{},k,s,{},0.1,{}\n", date, model, kind, amount)
}

#[test]
fn aggregate_matches_sample_expectations() {
    let amount = parse_amount_csv(AMOUNT_SAMPLE, 480).unwrap();
    let cost = parse_cost_csv(COST_SAMPLE, 480).unwrap();
    let agg = aggregate(amount, cost).unwrap();
    assert_eq!(agg.len(), 2);

    let e = entry(&agg, "2026-07-13", "deepseek-v4-pro");
    assert_eq!(e.hit_tokens, 105_402_624);
    assert_eq!(e.miss_tokens, 1_885_620);
    assert_eq!(e.output_tokens, 352_921);
    assert_eq!(e.calls, 666);
    assert_eq!(cost_sum(e), 10.4094516);

    let e = entry(&agg, "2026-07-13", "deepseek-v4-flash");
    assert_eq!(e.hit_tokens, 0);
    assert_eq!(e.miss_tokens, 0);
    assert_eq!(e.calls, 88);
    assert_eq!(e.output_tokens, 20_209);
    assert_eq!(cost_sum(e), 0.96676036);
}

#[test]
fn totals_stand_in_the_order_of_date_and_model() {
    let text = format!(
        "{}{}{}{}{}",
        AMOUNT_HEADER,
        amount_row("2026-07-14", "a", TYPE_CALLS, "1"),
        amount_row("2026-07-13", "b", TYPE_HIT, "2"),
        amount_row("2026-07-13", "a", TYPE_MISS, "3"),
        amount_row("2026-07-14", "a", TYPE_CALLS, "4"),
    );
    let cost = format!("{}u,2026-07-12T00:00:00+08:00,x,c,Granted,1.5,CNY\n", COST_HEADER);
    let list = import_tables(Some(text), Some(cost), 480).unwrap().unwrap();
    let keys: Vec<(&str, &str)> =
        list.iter().map(|t| (t.date.as_str(), t.model.as_str())).collect();
    assert_eq!(
        keys,
        vec![("2026-07-12", "c"), ("2026-07-13", "a"), ("2026-07-13", "b"), ("2026-07-14", "a")]
    );
    assert_eq!(list[3].calls, 5);
    assert_eq!(list[0].costs, vec!["1.5".to_string()]);
    assert_eq!(list[1].miss_tokens, 3);
    assert_eq!(list[2].hit_tokens, 2);
}

#[test]
fn totals_above_64_bits_are_no_totals() {
    let text = format!(
        "{}{}{}",
        AMOUNT_HEADER,
        amount_row("2026-07-14", "a", TYPE_OUTPUT, "18446744073709551615"),
        amount_row("2026-07-14", "a", TYPE_OUTPUT, "1"),
    );
    assert_eq!(import_tables(Some(text), Some(COST_SAMPLE.to_string()), 480), Ok(None));
}

#[test]
fn archives_are_imported() {
    let bytes = archive(&[
        ("readme.txt", b"nothing"),
        ("amount-2026-07.csv", AMOUNT_SAMPLE.as_bytes()),
        ("cost-2026-07.csv", COST_SAMPLE.as_bytes()),
        ("amount-later.csv", b"not read"),
    ]);
    let list = import_zip_bytes(&bytes, 480).unwrap().unwrap();
    assert_eq!(list.len(), 2);
    assert_eq!(list[0].model, "deepseek-v4-flash");
    assert_eq!(list[1].calls, 666);
    assert_eq!(list[1].date, "2026-07-13");
    let list = import_zip_bytes(&bytes, 0).unwrap().unwrap();
    assert_eq!(list[1].date, "2026-07-12");
}

#[test]
fn archives_that_cannot_be_imported() {
    let failed = |bytes: &[u8]| import_zip_bytes(bytes, 480).unwrap_err();
    assert!(matches!(failed(b"no archive"), ImportError::Zip(_)));
    assert_eq!(failed(&archive(&[])), ImportError::MissingCsv("amount-*.csv"));
    assert_eq!(
        failed(&archive(&[("amount-1.csv", AMOUNT_SAMPLE.as_bytes())])),
        ImportError::MissingCsv("cost-*.csv")
    );
    assert_eq!(
        failed(&archive(&[("amount-1.csv", b"\xff\xfe"), ("cost-1.csv", b"")])),
        ImportError::Encoding
    );
    assert_eq!(
        failed(&archive(&[
            ("cost-1.csv", COST_HEADER.as_bytes()),
            ("amount-1.csv", AMOUNT_HEADER.as_bytes()),
        ])),
        ImportError::EmptyData
    );
}

#[test]
fn tables_with_another_header() {
    assert_eq!(
        parse_amount_csv("user_id,\"a\"\"b\"\n", 480),
        Err(ImportError::BadHeader(
            "amount",
            "期望 9 列,实际 2 列: [\"user_id\", \"a\\\"b\"]".to_string()
        ))
    );
    assert_eq!(
        parse_cost_csv("", 480),
        Err(ImportError::BadHeader("cost", "期望 7 列,实际 0 列: []".to_string()))
    );
    assert!(matches!(
        parse_cost_csv(&COST_HEADER.replace("cost", "price"), 480),
        Err(ImportError::BadHeader("cost", _))
    ));
}

#[test]
fn rows_that_are_refused() {
    let amount = |row: &str| parse_amount_csv(&format!("{}{}", AMOUNT_HEADER, row), 480);
    let cost = |row: &str| parse_cost_csv(&format!("{}{}", COST_HEADER, row), 480);
    assert_eq!(
        amount("u,yesterday,x,m,k,s,request_count,,1\n"),
        Err(ImportError::BadLine("amount", 2, "日期格式非法: yesterday".to_string()))
    );
    assert_eq!(
        amount(&amount_row("2026-07-13", "m", "requests", "1")),
        Err(ImportError::UnknownType("requests".to_string()))
    );
    assert_eq!(
        amount("u,2026-07-13T00:00:00Z,x,m,k,s,request_count,cheap,1\n"),
        Err(ImportError::BadLine("amount", 2, "price 非数字: cheap".to_string()))
    );
    assert_eq!(
        amount(&amount_row("2026-07-13", "m", TYPE_CALLS, "-1")),
        Err(ImportError::BadLine("amount", 2, "amount 非非负整数: -1".to_string()))
    );
    assert_eq!(
        cost("u,2026-07-13T00:00:00Z,x,m,Borrowed,1,CNY\n"),
        Err(ImportError::BadLine("cost", 2, "未知 wallet_type: Borrowed".to_string()))
    );
    assert_eq!(
        cost("u,2026-07-13T00:00:00Z,x,m,Paid,much,CNY\n"),
        Err(ImportError::BadLine("cost", 2, "cost 非数字: much".to_string()))
    );
    assert!(matches!(amount("u,v\n"), Err(ImportError::BadLine("amount", _, _))));
}

#[test]
fn blank_rows_are_passed_over_and_fields_trimmed() {
    let text = format!(
        "{},,,,,,,,\n u , 2026-07-13T00:00:00Z ,x, m ,k,s, request_count ,, 7 \n",
        AMOUNT_HEADER
    );
    let rows = parse_amount_csv(&text, 0).unwrap();
    assert_eq!(rows.len(), 1);
    assert_eq!(rows[0].model, "m");
    assert_eq!(rows[0].amount, 7);
    assert_eq!(rows[0].type_, TYPE_CALLS);
    assert_eq!(rows[0].date, "2026-07-13");
}

#[test]
fn single_rows() {
    let row = |fields: &[&str]| CsvRow {
        line: None,
        fields: fields.iter().map(|f| f.to_string()).collect(),
    };
    assert_eq!(amount_line(&row(&["", ""]), 0), Ok(None));
    assert_eq!(
        amount_line(&row(&["u", "2026-07-13T00:00:00Z"]), 0),
        Err(ImportError::UnknownType(String::new()))
    );
    assert_eq!(
        cost_line(&row(&["u", "x"]), 0),
        Err(ImportError::BadLine("cost", 0, "日期格式非法: x".to_string()))
    );
    let c = cost_line(&row(&["u", "2026-07-13T00:00:00Z", "", "m", "Paid", "1e3"]), 0);
    assert_eq!(c.unwrap().unwrap().cost, "1e3");
    assert_eq!(
        line_err("cost", &CsvFault { line: Some(4), message: "broken".to_string() }),
        ImportError::BadLine("cost", 4, "broken".to_string())
    );
    assert_eq!(parse_date("2026", 0), Err("日期格式非法: 2026".to_string()));
    assert_eq!(strip_bom("\u{feff}\u{feff}a"), "\u{feff}a");
    assert_eq!(strip_bom("a"), "a");
}

#[test]
fn import_errors_as_they_are_read() {
    assert_eq!(ImportError::Zip("x".to_string()).message(), "zip 解析失败: x");
    assert_eq!(
        ImportError::MissingCsv("cost-*.csv").message(),
        "缺少文件: cost-*.csv(zip 中未找到)"
    );
    assert_eq!(
        ImportError::BadHeader("cost", "d".to_string()).message(),
        "cost 表头不符合预期: d"
    );
    assert_eq!(ImportError::BadLine("amount", 3, "d".to_string()).message(), "amount 第 3 行: d");
    assert_eq!(
        ImportError::UnknownType("t".to_string()).message(),
        "未知指标类型: t(平台格式可能已变更)"
    );
    assert_eq!(ImportError::Encoding.message(), "文件编码非 UTF-8");
    assert_eq!(ImportError::EmptyData.message(), "CSV 无有效数据行");
}

#[test]
fn tables_by_their_names() {
    assert!(table_of_name("amount-1.csv") == Table::Amount);
    assert!(table_of_name("cost-1.csv") == Table::Cost);
    assert!(table_of_name("dir/cost-1.csv") == Table::Other);
    assert!(table_of_name("amount-1.txt") == Table::Other);
}

fn usage(model: &str, calls: u64) -> DayModelUsage<f64> {
    DayModelUsage {
        model: model.to_string(),
        calls,
        hit_tokens: 0,
        miss_tokens: 0,
        output_tokens: 0,
        cost: 0.5,
    }
}

#[test]
fn importing_again_changes_nothing() {
    let mut data: DataFile<f64> = DataFile::new();
    data.upsert_daily("2026-07-01", usage("old", 9));
    let list = import_tables(Some(AMOUNT_SAMPLE.to_string()), Some(COST_SAMPLE.to_string()), 480)
        .unwrap()
        .unwrap();
    let costs: Vec<f64> = list.iter().map(cost_sum).collect();
    assert_eq!(apply_usage(&mut data, priced_rows(&list, &costs)), (1, 2, 0));
    let once = data.clone();
    assert_eq!(apply_usage(&mut data, priced_rows(&list, &costs)), (1, 2, 2));
    assert_eq!(data, once);
    assert_eq!(data.rows("2026-07-01").unwrap(), &vec![usage("old", 9)]);
    let rows = data.rows("2026-07-13").unwrap();
    assert_eq!(rows.len(), 2);
    assert_eq!(rows[1].cost, 10.4094516);
    assert!(data.rows("2026-07-02").is_none());
}

#[test]
fn usage_is_put_in_its_place() {
    let mut data: DataFile<f64> = DataFile::new();
    assert!(!data.upsert_daily("2026-07-02", usage("a", 1)));
    assert!(!data.upsert_daily("2026-07-01", usage("a", 2)));
    assert!(!data.upsert_daily("2026-07-02", usage("b", 3)));
    assert!(data.upsert_daily("2026-07-02", usage("a", 4)));
    let dates: Vec<&str> = data.days.iter().map(|d| d.date.as_str()).collect();
    assert_eq!(dates, vec!["2026-07-01", "2026-07-02"]);
    assert_eq!(data.rows("2026-07-02").unwrap(), &vec![usage("a", 4), usage("b", 3)]);
}

#[test]
fn hits_that_were_left_out_are_zero() {
    let cost = format!("{}u,2026-07-13T00:00:00+08:00,x,m,Paid,1,CNY\n", COST_HEADER);
    let amounts = parse_amount_csv(
        &format!("{}{}", AMOUNT_HEADER, amount_row("2026-07-13", "n", TYPE_MISS, "8")),
        480,
    )
    .unwrap();
    let costs = parse_cost_csv(&cost, 480).unwrap();
    let list = aggregate(amounts.clone(), costs.clone()).unwrap();
    assert_eq!(list.len(), 2);
    assert_eq!((list[0].model.as_str(), list[0].hit_tokens, list[0].miss_tokens), ("m", 0, 0));
    assert_eq!((list[1].model.as_str(), list[1].hit_tokens, list[1].miss_tokens), ("n", 0, 8));
    assert_eq!(aggregate(amounts, costs), Some(list));
}
