//! The usage tables of the platform: comma-separated text with a fixed header.
use vstd::prelude::*;
use vstd::string::*;

use crate::dates::{local_date_from_rfc3339, timestamp_date};
use crate::number::{is_fraction, is_fraction_text, parse_u64, u64_of};
use crate::text::{digits, text_eq, texts, u64_text, usize_text};

verus! {

/// The metric of a row: input tokens read from the cache.
pub const TYPE_HIT: &'static str = "input_cache_hit_tokens";

/// The metric of a row: input tokens not found in the cache.
pub const TYPE_MISS: &'static str = "input_cache_miss_tokens";

/// The metric of a row: output tokens.
pub const TYPE_OUTPUT: &'static str = "output_tokens";

/// The metric of a row: requests.
pub const TYPE_CALLS: &'static str = "request_count";

/// Why an export could not be imported.
#[derive(Debug, Clone, PartialEq, Eq)]
pub enum ImportError {
    Zip(String),
    MissingCsv(&'static str),
    BadHeader(&'static str, String),
    BadLine(&'static str, u64, String),
    UnknownType(String),
    Encoding,
    EmptyData,
}

/// What an import error says.
pub enum ImportErrorView {
    Zip(Seq<char>),
    MissingCsv(Seq<char>),
    BadHeader(Seq<char>, Seq<char>),
    BadLine(Seq<char>, u64, Seq<char>),
    UnknownType(Seq<char>),
    Encoding,
    EmptyData,
}

impl View for ImportError {
    type V = ImportErrorView;

    open spec fn view(&self) -> ImportErrorView {
        match self {
            ImportError::Zip(m) => ImportErrorView::Zip(m@),
            ImportError::MissingCsv(f) => ImportErrorView::MissingCsv(f@),
            ImportError::BadHeader(w, m) => ImportErrorView::BadHeader(w@, m@),
            ImportError::BadLine(w, n, m) => ImportErrorView::BadLine(w@, *n, m@),
            ImportError::UnknownType(t) => ImportErrorView::UnknownType(t@),
            ImportError::Encoding => ImportErrorView::Encoding,
            ImportError::EmptyData => ImportErrorView::EmptyData,
        }
    }
}

impl ImportErrorView {
    /// The error as the user reads it.
    pub open spec fn message(self) -> Seq<char> {
        match self {
            ImportErrorView::Zip(m) => "zip 解析失败: "@ + m,
            ImportErrorView::MissingCsv(f) => "缺少文件: "@ + f + "(zip 中未找到)"@,
            ImportErrorView::BadHeader(w, m) => w + " 表头不符合预期: "@ + m,
            ImportErrorView::BadLine(w, n, m) => w + " 第 "@ + digits(n as nat) + " 行: "@ + m,
            ImportErrorView::UnknownType(t) => "未知指标类型: "@ + t + "(平台格式可能已变更)"@,
            ImportErrorView::Encoding => "文件编码非 UTF-8"@,
            ImportErrorView::EmptyData => "CSV 无有效数据行"@,
        }
    }
}

impl ImportError {
    /// The error as the user reads it.
    pub fn message(&self) -> (text: String)
        ensures
            text@ == self@.message(),
    {
        match self {
            ImportError::Zip(m) => {
                let mut out = "zip 解析失败: ".to_owned();
                out.append(m.as_str());
                out
            },
            ImportError::MissingCsv(f) => {
                let mut out = "缺少文件: ".to_owned();
                out.append(f);
                out.append("(zip 中未找到)");
                out
            },
            ImportError::BadHeader(w, m) => {
                let mut out = (*w).to_owned();
                out.append(" 表头不符合预期: ");
                out.append(m.as_str());
                out
            },
            ImportError::BadLine(w, n, m) => {
                let mut out = (*w).to_owned();
                out.append(" 第 ");
                out.append(u64_text(*n).as_str());
                out.append(" 行: ");
                out.append(m.as_str());
                out
            },
            ImportError::UnknownType(t) => {
                let mut out = "未知指标类型: ".to_owned();
                out.append(t.as_str());
                out.append("(平台格式可能已变更)");
                out
            },
            ImportError::Encoding => "文件编码非 UTF-8".to_owned(),
            ImportError::EmptyData => "CSV 无有效数据行".to_owned(),
        }
    }
}

/// A row of a table: the line on which it begins, where known, and its fields.
#[derive(Debug, Clone, PartialEq, Eq)]
pub struct CsvRow {
    pub line: Option<u64>,
    pub fields: Vec<String>,
}

/// A row that could not be read: the line, where known, and why.
#[derive(Debug, Clone, PartialEq, Eq)]
pub struct CsvFault {
    pub line: Option<u64>,
    pub message: String,
}

/// What a row says.
pub struct RowView {
    pub line: Option<u64>,
    pub fields: Seq<Seq<char>>,
}

/// What a fault says.
pub struct FaultView {
    pub line: Option<u64>,
    pub message: Seq<char>,
}

impl View for CsvRow {
    type V = RowView;

    open spec fn view(&self) -> RowView {
        RowView { line: self.line, fields: texts(self.fields@) }
    }
}

impl View for CsvFault {
    type V = FaultView;

    open spec fn view(&self) -> FaultView {
        FaultView { line: self.line, message: self.message@ }
    }
}

/// What the header of a table, or the fault in its place, says.
pub open spec fn header_view(h: Result<Vec<String>, CsvFault>) -> Result<Seq<Seq<char>>, FaultView> {
    match h {
        Ok(names) => Ok(texts(names@)),
        Err(f) => Err(f@),
    }
}

/// What a row, or the fault in its place, says.
pub open spec fn row_view(r: Result<CsvRow, CsvFault>) -> Result<RowView, FaultView> {
    match r {
        Ok(row) => Ok(row@),
        Err(f) => Err(f@),
    }
}

/// What the rows of a table say.
pub open spec fn row_views(
    rows: Seq<Result<CsvRow, CsvFault>>,
) -> Seq<Result<RowView, FaultView>> {
    rows.map_values(|r: Result<CsvRow, CsvFault>| row_view(r))
}

/// The header that the `csv` reader finds in a text.
pub uninterp spec fn csv_header_of(text: Seq<char>) -> Result<Seq<Seq<char>>, FaultView>;

/// The rows behind the header that the `csv` reader finds in a text.
pub uninterp spec fn csv_rows_of(text: Seq<char>) -> Seq<Result<RowView, FaultView>>;

/// `csv::Reader::headers`, of a reader that trims every field: the fields of the first record,
/// or the fault. What they are is named by `csv_header_of`.
#[verifier::external_body]
fn csv_header(text: &str) -> (h: Result<Vec<String>, CsvFault>)
    ensures
        header_view(h) == csv_header_of(text@),
{
    let mut reader = csv::ReaderBuilder::new().trim(csv::Trim::All).from_reader(text.as_bytes());
    match reader.headers() {
        Ok(record) => Ok(record.iter().map(|f| f.to_string()).collect()),
        Err(e) => Err(
            CsvFault { line: e.position().map(|p| p.line()), message: e.to_string() },
        ),
    }
}

/// `csv::Reader::records`, of a reader that trims every field: the records behind the first, each
/// with its line and fields, or the fault in its place. What they are is named by `csv_rows_of`.
/// A record with another number of fields than the first is a fault.
#[verifier::external_body]
fn csv_records(text: &str) -> (rows: Vec<Result<CsvRow, CsvFault>>)
    ensures
        row_views(rows@) == csv_rows_of(text@),
        csv_header_of(text@) matches Ok(h) ==> forall|i: int|
            0 <= i < rows@.len() ==> (#[trigger] rows@[i] matches Ok(row) ==> row.fields@.len()
                == h.len()),
{
    let mut reader = csv::ReaderBuilder::new().trim(csv::Trim::All).from_reader(text.as_bytes());
    reader.records().map(
        |item|
            match item {
                Ok(record) => Ok(
                    CsvRow {
                        line: record.position().map(|p| p.line()),
                        fields: record.iter().map(|f| f.to_string()).collect(),
                    },
                ),
                Err(e) => Err(
                    CsvFault { line: e.position().map(|p| p.line()), message: e.to_string() },
                ),
            },
    ).collect()
}

/// The form in which a text is shown for debugging: in quotes, with escapes.
pub uninterp spec fn debug_form(s: Seq<char>) -> Seq<char>;

/// The `Debug` form of a text, as the `format` macro of std gives it. What it is is named by
/// `debug_form`.
#[verifier::external_body]
fn debug_text(s: &str) -> (text: String)
    ensures
        text@ == debug_form(s@),
{
    format!("{:?}", s)
}

/// The texts in their debug form, with commas between them.
pub open spec fn debug_items(items: Seq<Seq<char>>) -> Seq<char>
    decreases items.len(),
{
    if items.len() == 0 {
        Seq::empty()
    } else if items.len() == 1 {
        debug_form(items[0])
    } else {
        debug_items(items.drop_last()) + ", "@ + debug_form(items.last())
    }
}

/// Why a header is refused: how many columns were expected, how many there are, and which.
pub open spec fn header_detail(expected: nat, actual: Seq<Seq<char>>) -> Seq<char> {
    "期望 "@ + digits(expected) + " 列,实际 "@ + digits(actual.len()) + " 列: ["@ + debug_items(
        actual,
    ) + "]"@
}

fn header_detail_text(expected: usize, actual: &Vec<String>) -> (text: String)
    ensures
        text@ == header_detail(expected as nat, texts(actual@)),
{
    let ghost all = texts(actual@);
    let mut items = String::new();
    let mut i: usize = 0;
    while i < actual.len()
        invariant
            i <= actual@.len(),
            all == texts(actual@),
            items@ == debug_items(all.take(i as int)),
        decreases actual@.len() - i,
    {
        proof {
            assert(all.take(i + 1).drop_last() =~= all.take(i as int));
            assert(all.take(i + 1).last() == actual@[i as int]@);
        }
        let shown = debug_text(actual[i].as_str());
        if i > 0 {
            items.append(", ");
            items.append(shown.as_str());
        } else {
            items = shown;
        }
        i = i + 1;
    }
    proof {
        assert(all.take(i as int) =~= all);
    }
    let mut out = "期望 ".to_owned();
    out.append(usize_text(expected).as_str());
    out.append(" 列,实际 ");
    out.append(usize_text(actual.len()).as_str());
    out.append(" 列: [");
    out.append(items.as_str());
    out.append("]");
    out
}

/// The columns of the amount table.
pub open spec fn amount_columns() -> Seq<Seq<char>> {
    seq![
        "user_id"@,
        "start_time_iso"@,
        "end_time_iso"@,
        "model"@,
        "api_key_name"@,
        "api_key"@,
        "type"@,
        "price"@,
        "amount"@,
    ]
}

/// The columns of the cost table.
pub open spec fn cost_columns() -> Seq<Seq<char>> {
    seq![
        "user_id"@,
        "start_time_iso"@,
        "end_time_iso"@,
        "model"@,
        "wallet_type"@,
        "cost"@,
        "currency"@,
    ]
}

/// The columns of the amount table.
pub fn amount_header() -> (names: Vec<String>)
    ensures
        texts(names@) == amount_columns(),
{
    let names = vec![
        "user_id".to_owned(),
        "start_time_iso".to_owned(),
        "end_time_iso".to_owned(),
        "model".to_owned(),
        "api_key_name".to_owned(),
        "api_key".to_owned(),
        "type".to_owned(),
        "price".to_owned(),
        "amount".to_owned(),
    ];
    proof {
        assert(texts(names@) =~= amount_columns());
    }
    names
}

/// The columns of the cost table.
pub fn cost_header() -> (names: Vec<String>)
    ensures
        texts(names@) == cost_columns(),
{
    let names = vec![
        "user_id".to_owned(),
        "start_time_iso".to_owned(),
        "end_time_iso".to_owned(),
        "model".to_owned(),
        "wallet_type".to_owned(),
        "cost".to_owned(),
        "currency".to_owned(),
    ];
    proof {
        assert(texts(names@) =~= cost_columns());
    }
    names
}

/// The number of a line; 0 where it is not known.
pub open spec fn line_number(line: Option<u64>) -> u64 {
    match line {
        Some(n) => n,
        None => 0,
    }
}

/// The error for a row that could not be read.
pub open spec fn fault_error(which: Seq<char>, fault: FaultView) -> ImportErrorView {
    ImportErrorView::BadLine(which, line_number(fault.line), fault.message)
}

/// The error for a line.
pub fn row_err(which: &'static str, line: u64, detail: &str) -> (e: ImportError)
    ensures
        e@ == ImportErrorView::BadLine(which@, line, detail@),
{
    ImportError::BadLine(which, line, detail.to_owned())
}

/// The error for a row that could not be read.
pub fn line_err(which: &'static str, fault: &CsvFault) -> (e: ImportError)
    ensures
        e@ == fault_error(which@, fault@),
{
    let line: u64 = match fault.line {
        Some(n) => n,
        None => 0,
    };
    row_err(which, line, fault.message.as_str())
}

/// What comes of checking a header: the columns must be the expected ones, in their order.
pub open spec fn header_check(
    header: Result<Seq<Seq<char>>, FaultView>,
    which: Seq<char>,
    expected: Seq<Seq<char>>,
) -> Option<ImportErrorView> {
    match header {
        Err(fault) => Some(fault_error(which, fault)),
        Ok(actual) => if actual == expected {
            None
        } else {
            Some(ImportErrorView::BadHeader(which, header_detail(expected.len(), actual)))
        },
    }
}

fn same_texts(a: &Vec<String>, b: &Vec<String>) -> (r: bool)
    ensures
        r == (texts(a@) == texts(b@)),
{
    if a.len() != b.len() {
        proof {
            assert(texts(a@).len() != texts(b@).len());
        }
        return false;
    }
    let mut i: usize = 0;
    while i < a.len()
        invariant
            a@.len() == b@.len(),
            i <= a@.len(),
            forall|j: int| 0 <= j < i ==> (#[trigger] a@[j])@ == b@[j]@,
        decreases a@.len() - i,
    {
        if !text_eq(a[i].as_str(), b[i].as_str()) {
            proof {
                assert(texts(a@)[i as int] != texts(b@)[i as int]);
            }
            return false;
        }
        i = i + 1;
    }
    proof {
        assert(texts(a@) =~= texts(b@));
    }
    true
}

/// Checks the header of a table.
pub fn validate_header(
    header: &Result<Vec<String>, CsvFault>,
    which: &'static str,
    expected: &Vec<String>,
) -> (r: Result<(), ImportError>)
    ensures
        (match r {
            Ok(_) => None,
            Err(e) => Some(e@),
        }) == header_check(header_view(*header), which@, texts(expected@)),
{
    match header {
        Err(fault) => Err(line_err(which, fault)),
        Ok(actual) => {
            if same_texts(actual, expected) {
                Ok(())
            } else {
                Err(ImportError::BadHeader(which, header_detail_text(expected.len(), actual)))
            }
        },
    }
}

/// A text without the byte order mark at its front.
pub open spec fn without_bom(s: Seq<char>) -> Seq<char> {
    if s.len() > 0 && s[0] == '\u{feff}' {
        s.skip(1)
    } else {
        s
    }
}

/// A text without the byte order mark at its front.
pub fn strip_bom(text: &str) -> (r: &str)
    ensures
        r@ == without_bom(text@),
{
    let len = text.unicode_len();
    if len > 0 && text.get_char(0) == '\u{feff}' {
        proof {
            assert(text@.subrange(1, len as int) =~= text@.skip(1));
        }
        text.substring_char(1, len)
    } else {
        text
    }
}

/// A row of the amount table: so much of one metric, by one model on one date.
#[derive(Debug, Clone, PartialEq, Eq)]
pub struct AmountLine {
    pub date: String,
    pub model: String,
    pub type_: String,
    pub amount: u64,
}

/// A row of the cost table: what one model cost on one date, as the decimal fraction that the
/// table holds.
#[derive(Debug, Clone, PartialEq, Eq)]
pub struct CostLine {
    pub date: String,
    pub model: String,
    pub cost: String,
}

/// What a row of the amount table says.
pub struct AmountView {
    pub date: Seq<char>,
    pub model: Seq<char>,
    pub type_: Seq<char>,
    pub amount: u64,
}

/// What a row of the cost table says.
pub struct CostView {
    pub date: Seq<char>,
    pub model: Seq<char>,
    pub cost: Seq<char>,
}

impl View for AmountLine {
    type V = AmountView;

    open spec fn view(&self) -> AmountView {
        AmountView {
            date: self.date@,
            model: self.model@,
            type_: self.type_@,
            amount: self.amount,
        }
    }
}

impl View for CostLine {
    type V = CostView;

    open spec fn view(&self) -> CostView {
        CostView { date: self.date@, model: self.model@, cost: self.cost@ }
    }
}

/// What the rows of the amount table say.
pub open spec fn amount_views(rows: Seq<AmountLine>) -> Seq<AmountView> {
    rows.map_values(|r: AmountLine| r@)
}

/// What the rows of the cost table say.
pub open spec fn cost_views(rows: Seq<CostLine>) -> Seq<CostView> {
    rows.map_values(|r: CostLine| r@)
}

/// The date of a timestamp, or why it is none.
pub open spec fn date_or_detail(s: Seq<char>, tz: int) -> Result<Seq<char>, Seq<char>> {
    match timestamp_date(vstd::utf8::encode_utf8(s), tz) {
        Some(date) => Ok(date),
        None => Err("日期格式非法: "@ + s),
    }
}

/// The local date of a timestamp, or why it is none.
pub fn parse_date(s: &str, tz_offset_min: i32) -> (r: Result<String, String>)
    ensures
        (match r {
            Ok(d) => Ok(d@),
            Err(e) => Err(e@),
        }) == date_or_detail(s@, tz_offset_min as int),
{
    match local_date_from_rfc3339(s, tz_offset_min) {
        Some(date) => Ok(date),
        None => {
            let mut out = "日期格式非法: ".to_owned();
            out.append(s);
            Err(out)
        },
    }
}

/// The field in column `i`; an empty text where the row has no such column.
pub open spec fn field_at(row: RowView, i: int) -> Seq<char> {
    if 0 <= i < row.fields.len() {
        row.fields[i]
    } else {
        Seq::empty()
    }
}

/// Whether every field is empty.
pub open spec fn is_blank(row: RowView) -> bool {
    forall|i: int| 0 <= i < row.fields.len() ==> (#[trigger] row.fields[i]).len() == 0
}

/// Whether a metric is one of the four that the table may hold.
pub open spec fn known_type(t: Seq<char>) -> bool {
    t == TYPE_HIT@ || t == TYPE_MISS@ || t == TYPE_OUTPUT@ || t == TYPE_CALLS@
}

/// What a row of the amount table stands for: nothing where it is blank, or the error. Of several
/// faults the first is reported, in the order date, metric, price, amount.
pub open spec fn amount_of(row: RowView, tz: int) -> Result<Option<AmountView>, ImportErrorView> {
    let line = line_number(row.line);
    let type_ = field_at(row, 6);
    let price = field_at(row, 7);
    let amount = field_at(row, 8);
    if is_blank(row) {
        Ok(None)
    } else {
        match date_or_detail(field_at(row, 1), tz) {
            Err(detail) => Err(ImportErrorView::BadLine("amount"@, line, detail)),
            Ok(date) => if !known_type(type_) {
                Err(ImportErrorView::UnknownType(type_))
            } else if price.len() != 0 && !is_fraction(price) {
                Err(ImportErrorView::BadLine("amount"@, line, "price 非数字: "@ + price))
            } else {
                match u64_of(amount) {
                    None => Err(
                        ImportErrorView::BadLine(
                            "amount"@,
                            line,
                            "amount 非非负整数: "@ + amount,
                        ),
                    ),
                    Some(n) => Ok(
                        Some(AmountView { date, model: field_at(row, 3), type_, amount: n }),
                    ),
                }
            },
        }
    }
}

/// What a row of the cost table stands for: nothing where it is blank, or the error. Of several
/// faults the first is reported, in the order date, wallet, cost.
pub open spec fn cost_of(row: RowView, tz: int) -> Result<Option<CostView>, ImportErrorView> {
    let line = line_number(row.line);
    let wallet = field_at(row, 4);
    let cost = field_at(row, 5);
    if is_blank(row) {
        Ok(None)
    } else {
        match date_or_detail(field_at(row, 1), tz) {
            Err(detail) => Err(ImportErrorView::BadLine("cost"@, line, detail)),
            Ok(date) => if wallet != "Paid"@ && wallet != "Granted"@ {
                Err(ImportErrorView::BadLine("cost"@, line, "未知 wallet_type: "@ + wallet))
            } else if !is_fraction(cost) {
                Err(ImportErrorView::BadLine("cost"@, line, "cost 非数字: "@ + cost))
            } else {
                Ok(Some(CostView { date, model: field_at(row, 3), cost }))
            },
        }
    }
}

/// What the rows of an amount table stand for. The first error ends the reading.
pub open spec fn amounts_of(
    rows: Seq<Result<RowView, FaultView>>,
    tz: int,
) -> Result<Seq<AmountView>, ImportErrorView>
    decreases rows.len(),
{
    if rows.len() == 0 {
        Ok(Seq::empty())
    } else {
        match amounts_of(rows.drop_last(), tz) {
            Err(e) => Err(e),
            Ok(front) => match rows.last() {
                Err(fault) => Err(fault_error("amount"@, fault)),
                Ok(row) => match amount_of(row, tz) {
                    Err(e) => Err(e),
                    Ok(None) => Ok(front),
                    Ok(Some(a)) => Ok(front.push(a)),
                },
            },
        }
    }
}

/// What the rows of a cost table stand for. The first error ends the reading.
pub open spec fn costs_of(
    rows: Seq<Result<RowView, FaultView>>,
    tz: int,
) -> Result<Seq<CostView>, ImportErrorView>
    decreases rows.len(),
{
    if rows.len() == 0 {
        Ok(Seq::empty())
    } else {
        match costs_of(rows.drop_last(), tz) {
            Err(e) => Err(e),
            Ok(front) => match rows.last() {
                Err(fault) => Err(fault_error("cost"@, fault)),
                Ok(row) => match cost_of(row, tz) {
                    Err(e) => Err(e),
                    Ok(None) => Ok(front),
                    Ok(Some(c)) => Ok(front.push(c)),
                },
            },
        }
    }
}

proof fn lemma_amounts_error(rows: Seq<Result<RowView, FaultView>>, k: int, tz: int)
    requires
        0 <= k <= rows.len(),
        amounts_of(rows.take(k), tz) is Err,
    ensures
        amounts_of(rows, tz) == amounts_of(rows.take(k), tz),
    decreases rows.len() - k,
{
    if k < rows.len() {
        assert(rows.take(k + 1).drop_last() =~= rows.take(k));
        lemma_amounts_error(rows, k + 1, tz);
    } else {
        assert(rows.take(k) =~= rows);
    }
}

proof fn lemma_costs_error(rows: Seq<Result<RowView, FaultView>>, k: int, tz: int)
    requires
        0 <= k <= rows.len(),
        costs_of(rows.take(k), tz) is Err,
    ensures
        costs_of(rows, tz) == costs_of(rows.take(k), tz),
    decreases rows.len() - k,
{
    if k < rows.len() {
        assert(rows.take(k + 1).drop_last() =~= rows.take(k));
        lemma_costs_error(rows, k + 1, tz);
    } else {
        assert(rows.take(k) =~= rows);
    }
}

fn blank_row(row: &CsvRow) -> (r: bool)
    ensures
        r == is_blank(row@),
{
    let mut i: usize = 0;
    while i < row.fields.len()
        invariant
            i <= row.fields@.len(),
            forall|j: int| 0 <= j < i ==> (#[trigger] row@.fields[j]).len() == 0,
        decreases row.fields@.len() - i,
    {
        if !row.fields[i].as_str().is_empty() {
            proof {
                assert(row@.fields[i as int].len() != 0);
            }
            return false;
        }
        i = i + 1;
    }
    true
}

fn field_text(row: &CsvRow, i: usize) -> (text: String)
    ensures
        text@ == field_at(row@, i as int),
{
    if i < row.fields.len() {
        row.fields[i].clone()
    } else {
        String::new()
    }
}

fn known_type_text(t: &str) -> (r: bool)
    ensures
        r == known_type(t@),
{
    text_eq(t, TYPE_HIT) || text_eq(t, TYPE_MISS) || text_eq(t, TYPE_OUTPUT) || text_eq(
        t,
        TYPE_CALLS,
    )
}

fn detail_err(which: &'static str, line: u64, what: &str, value: &str) -> (e: ImportError)
    ensures
        e@ == ImportErrorView::BadLine(which@, line, what@ + value@),
{
    let mut detail = what.to_owned();
    detail.append(value);
    ImportError::BadLine(which, line, detail)
}

fn row_line(row: &CsvRow) -> (n: u64)
    ensures
        n == line_number(row@.line),
{
    match row.line {
        Some(n) => n,
        None => 0,
    }
}

/// Reads a row of the amount table. A row that is not blank has a second column.
pub fn amount_line(row: &CsvRow, tz_offset_min: i32) -> (r: Result<Option<AmountLine>, ImportError>)
    requires
        is_blank(row@) || row.fields@.len() >= 2,
    ensures
        (match r {
            Ok(Some(a)) => Ok(Some(a@)),
            Ok(None) => Ok(None),
            Err(e) => Err(e@),
        }) == amount_of(row@, tz_offset_min as int),
{
    if blank_row(row) {
        return Ok(None);
    }
    let line = row_line(row);
    let date = match parse_date(row.fields[1].as_str(), tz_offset_min) {
        Ok(date) => date,
        Err(detail) => return Err(row_err("amount", line, detail.as_str())),
    };
    let model = field_text(row, 3);
    let type_ = field_text(row, 6);
    if !known_type_text(type_.as_str()) {
        return Err(ImportError::UnknownType(type_));
    }
    let price = field_text(row, 7);
    if !price.as_str().is_empty() && !is_fraction_text(price.as_str()) {
        return Err(detail_err("amount", line, "price 非数字: ", price.as_str()));
    }
    let amount_text = field_text(row, 8);
    match parse_u64(amount_text.as_str()) {
        Some(amount) => Ok(Some(AmountLine { date, model, type_, amount })),
        None => Err(detail_err("amount", line, "amount 非非负整数: ", amount_text.as_str())),
    }
}

/// Reads a row of the cost table. A row that is not blank has a second column.
pub fn cost_line(row: &CsvRow, tz_offset_min: i32) -> (r: Result<Option<CostLine>, ImportError>)
    requires
        is_blank(row@) || row.fields@.len() >= 2,
    ensures
        (match r {
            Ok(Some(c)) => Ok(Some(c@)),
            Ok(None) => Ok(None),
            Err(e) => Err(e@),
        }) == cost_of(row@, tz_offset_min as int),
{
    if blank_row(row) {
        return Ok(None);
    }
    let line = row_line(row);
    let date = match parse_date(row.fields[1].as_str(), tz_offset_min) {
        Ok(date) => date,
        Err(detail) => return Err(row_err("cost", line, detail.as_str())),
    };
    let model = field_text(row, 3);
    let wallet = field_text(row, 4);
    if !text_eq(wallet.as_str(), "Paid") && !text_eq(wallet.as_str(), "Granted") {
        return Err(detail_err("cost", line, "未知 wallet_type: ", wallet.as_str()));
    }
    let cost = field_text(row, 5);
    if !is_fraction_text(cost.as_str()) {
        return Err(detail_err("cost", line, "cost 非数字: ", cost.as_str()));
    }
    Ok(Some(CostLine { date, model, cost }))
}

/// Whether every row that was read has a second column, or is blank.
pub open spec fn rows_wide(rows: Seq<Result<CsvRow, CsvFault>>) -> bool {
    forall|i: int|
        0 <= i < rows.len() ==> (#[trigger] rows[i] matches Ok(row) ==> is_blank(row@)
            || row.fields@.len() >= 2)
}

/// Reads the rows of an amount table.
pub fn amount_lines(rows: &Vec<Result<CsvRow, CsvFault>>, tz_offset_min: i32) -> (r: Result<
    Vec<AmountLine>,
    ImportError,
>)
    requires
        rows_wide(rows@),
    ensures
        (match r {
            Ok(v) => Ok(amount_views(v@)),
            Err(e) => Err(e@),
        }) == amounts_of(row_views(rows@), tz_offset_min as int),
{
    let ghost all = row_views(rows@);
    let ghost tz = tz_offset_min as int;
    let mut out: Vec<AmountLine> = Vec::new();
    let mut i: usize = 0;
    proof {
        assert(all.take(0) =~= Seq::empty());
        assert(amount_views(out@) =~= Seq::empty());
    }
    while i < rows.len()
        invariant
            rows_wide(rows@),
            all == row_views(rows@),
            tz == tz_offset_min,
            i <= rows@.len(),
            amounts_of(all.take(i as int), tz) == Ok::<Seq<AmountView>, ImportErrorView>(
                amount_views(out@),
            ),
        decreases rows@.len() - i,
    {
        proof {
            assert(all.take(i + 1).drop_last() =~= all.take(i as int));
            assert(all.take(i + 1).last() == row_view(rows@[i as int]));
        }
        match &rows[i] {
            Err(fault) => {
                proof {
                    lemma_amounts_error(all, i + 1, tz);
                }
                return Err(line_err("amount", fault));
            },
            Ok(row) => match amount_line(row, tz_offset_min) {
                Err(e) => {
                    proof {
                        lemma_amounts_error(all, i + 1, tz);
                    }
                    return Err(e);
                },
                Ok(None) => {},
                Ok(Some(a)) => {
                    proof {
                        assert(amount_views(out@.push(a)) =~= amount_views(out@).push(a@));
                    }
                    out.push(a);
                },
            },
        }
        i = i + 1;
    }
    proof {
        assert(all.take(i as int) =~= all);
    }
    Ok(out)
}

/// Reads the rows of a cost table.
pub fn cost_lines(rows: &Vec<Result<CsvRow, CsvFault>>, tz_offset_min: i32) -> (r: Result<
    Vec<CostLine>,
    ImportError,
>)
    requires
        rows_wide(rows@),
    ensures
        (match r {
            Ok(v) => Ok(cost_views(v@)),
            Err(e) => Err(e@),
        }) == costs_of(row_views(rows@), tz_offset_min as int),
{
    let ghost all = row_views(rows@);
    let ghost tz = tz_offset_min as int;
    let mut out: Vec<CostLine> = Vec::new();
    let mut i: usize = 0;
    proof {
        assert(all.take(0) =~= Seq::empty());
        assert(cost_views(out@) =~= Seq::empty());
    }
    while i < rows.len()
        invariant
            rows_wide(rows@),
            all == row_views(rows@),
            tz == tz_offset_min,
            i <= rows@.len(),
            costs_of(all.take(i as int), tz) == Ok::<Seq<CostView>, ImportErrorView>(
                cost_views(out@),
            ),
        decreases rows@.len() - i,
    {
        proof {
            assert(all.take(i + 1).drop_last() =~= all.take(i as int));
            assert(all.take(i + 1).last() == row_view(rows@[i as int]));
        }
        match &rows[i] {
            Err(fault) => {
                proof {
                    lemma_costs_error(all, i + 1, tz);
                }
                return Err(line_err("cost", fault));
            },
            Ok(row) => match cost_line(row, tz_offset_min) {
                Err(e) => {
                    proof {
                        lemma_costs_error(all, i + 1, tz);
                    }
                    return Err(e);
                },
                Ok(None) => {},
                Ok(Some(c)) => {
                    proof {
                        assert(cost_views(out@.push(c)) =~= cost_views(out@).push(c@));
                    }
                    out.push(c);
                },
            },
        }
        i = i + 1;
    }
    proof {
        assert(all.take(i as int) =~= all);
    }
    Ok(out)
}

/// What an amount table says: its header is checked, then its rows are read.
pub open spec fn amount_table(text: Seq<char>, tz: int) -> Result<
    Seq<AmountView>,
    ImportErrorView,
> {
    let body = without_bom(text);
    match header_check(csv_header_of(body), "amount"@, amount_columns()) {
        Some(e) => Err(e),
        None => amounts_of(csv_rows_of(body), tz),
    }
}

/// What a cost table says: its header is checked, then its rows are read.
pub open spec fn cost_table(text: Seq<char>, tz: int) -> Result<Seq<CostView>, ImportErrorView> {
    let body = without_bom(text);
    match header_check(csv_header_of(body), "cost"@, cost_columns()) {
        Some(e) => Err(e),
        None => costs_of(csv_rows_of(body), tz),
    }
}

/// Reads an amount table.
pub fn parse_amount_csv(text: &str, tz_offset_min: i32) -> (r: Result<Vec<AmountLine>, ImportError>)
    ensures
        (match r {
            Ok(v) => Ok(amount_views(v@)),
            Err(e) => Err(e@),
        }) == amount_table(text@, tz_offset_min as int),
{
    let body = strip_bom(text);
    let header = csv_header(body);
    match validate_header(&header, "amount", &amount_header()) {
        Err(e) => Err(e),
        Ok(_) => amount_lines(&csv_records(body), tz_offset_min),
    }
}

/// Reads a cost table.
pub fn parse_cost_csv(text: &str, tz_offset_min: i32) -> (r: Result<Vec<CostLine>, ImportError>)
    ensures
        (match r {
            Ok(v) => Ok(cost_views(v@)),
            Err(e) => Err(e@),
        }) == cost_table(text@, tz_offset_min as int),
{
    let body = strip_bom(text);
    let header = csv_header(body);
    match validate_header(&header, "cost", &cost_header()) {
        Err(e) => Err(e),
        Ok(_) => cost_lines(&csv_records(body), tz_offset_min),
    }
}

proof fn lemma_amounts_known(rows: Seq<Result<RowView, FaultView>>, tz: int)
    ensures
        amounts_of(rows, tz) matches Ok(v) ==> forall|i: int|
            0 <= i < v.len() ==> known_type((#[trigger] v[i]).type_),
    decreases rows.len(),
{
    if rows.len() > 0 {
        lemma_amounts_known(rows.drop_last(), tz);
    }
}

/// Every row that an amount table yields has one of the four metrics.
pub proof fn law_amounts_have_known_types(text: Seq<char>, tz: int)
    ensures
        amount_table(text, tz) matches Ok(v) ==> forall|i: int|
            0 <= i < v.len() ==> known_type((#[trigger] v[i]).type_),
{
    lemma_amounts_known(csv_rows_of(without_bom(text)), tz);
}

proof fn lemma_costs_numbers(rows: Seq<Result<RowView, FaultView>>, tz: int)
    ensures
        costs_of(rows, tz) matches Ok(v) ==> forall|i: int|
            0 <= i < v.len() ==> is_fraction((#[trigger] v[i]).cost),
    decreases rows.len(),
{
    if rows.len() > 0 {
        lemma_costs_numbers(rows.drop_last(), tz);
    }
}

/// Every cost that a cost table yields is a decimal fraction.
pub proof fn law_costs_are_numbers(text: Seq<char>, tz: int)
    ensures
        cost_table(text, tz) matches Ok(v) ==> forall|i: int|
            0 <= i < v.len() ==> is_fraction((#[trigger] v[i]).cost),
{
    lemma_costs_numbers(csv_rows_of(without_bom(text)), tz);
}

} // verus!
