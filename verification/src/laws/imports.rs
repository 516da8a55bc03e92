//! Laws of importing: no row of an export is lost, doubled, moved or mistaken for another.
use vstd::prelude::*;

use crate::dates::timestamp_date;
use crate::import::{
    both_tables, export_tables, find_tables, import_outcome, priced_views, put_rows, replaced_count, row_dates,
    row_models, table_of, zip_contents, FoundView, Table, ZipEntryView,
};
use crate::number::{is_fraction, u64_of};
use crate::order::text_less;
use crate::state::{has_model, rows_of, upsert_rows, DayMap, UsageView};
use crate::tables::{
    amount_of, amount_table, amounts_of, cost_of, cost_table, costs_of, csv_header_of, csv_rows_of,
    debug_form, debug_items, field_at, without_bom, AmountView, CostView, FaultView, ImportError,
    ImportErrorView, RowView,
};
use crate::text::digits;
use crate::usage::{
    costs_for, has_entry, is_aggregate, is_named, total_of, totals_fit, totals_for, totals_views,
    TotalsView, UsageTotals,
};

verus! {

/// Every cost row counts: the costs for a date and model are those of all the rows for them, one
/// for each row, in the order of the table.
pub proof fn law_every_cost_row_counts(rows: Seq<CostView>, date: Seq<char>, model: Seq<char>)
    ensures
        costs_for(rows, (date, model)) == rows.filter(
            |r: CostView| r.date == date && r.model == model,
        ).map_values(|r: CostView| r.cost),
        costs_for(rows, (date, model)).len() == rows.filter(
            |r: CostView| r.date == date && r.model == model,
        ).len(),
    decreases rows.len(),
{
    reveal(Seq::filter);
    let pred = |r: CostView| r.date == date && r.model == model;
    if rows.len() > 0 {
        let front = rows.drop_last();
        law_every_cost_row_counts(front, date, model);
        assert(front.filter(pred).push(rows.last()).map_values(|r: CostView| r.cost)
            =~= front.filter(pred).map_values(|r: CostView| r.cost).push(rows.last().cost));
    } else {
        assert(rows.filter(pred).map_values(|r: CostView| r.cost) =~= Seq::empty());
    }
}

/// The costs of two tables, one behind the other, are those of the first followed by those of the
/// second.
pub proof fn law_costs_of_two_tables(
    a: Seq<CostView>,
    b: Seq<CostView>,
    date: Seq<char>,
    model: Seq<char>,
)
    ensures
        costs_for(a + b, (date, model)) == costs_for(a, (date, model)) + costs_for(
            b,
            (date, model),
        ),
    decreases b.len(),
{
    let key = (date, model);
    if b.len() > 0 {
        law_costs_of_two_tables(a, b.drop_last(), date, model);
        assert((a + b).drop_last() =~= a + b.drop_last());
        assert((a + b).last() == b.last());
        assert(costs_for(a + b, key) =~= costs_for(a, key) + costs_for(b, key));
    } else {
        assert(a + b =~= a);
        assert(costs_for(a, key) + costs_for(b, key) =~= costs_for(a, key));
    }
}

/// A metric adds up over two tables, one behind the other.
pub proof fn law_totals_of_two_tables(
    a: Seq<AmountView>,
    b: Seq<AmountView>,
    date: Seq<char>,
    model: Seq<char>,
    kind: Seq<char>,
)
    ensures
        total_of(a + b, (date, model), kind) == total_of(a, (date, model), kind) + total_of(
            b,
            (date, model),
            kind,
        ),
    decreases b.len(),
{
    if b.len() > 0 {
        law_totals_of_two_tables(a, b.drop_last(), date, model, kind);
        assert((a + b).drop_last() =~= a + b.drop_last());
        assert((a + b).last() == b.last());
    } else {
        assert(a + b =~= a);
    }
}

/// One row counts with its amount for its own date, model and metric, and not at all for any
/// others.
pub proof fn law_total_of_one_row(
    row: AmountView,
    date: Seq<char>,
    model: Seq<char>,
    kind: Seq<char>,
)
    ensures
        row.date == date && row.model == model && row.type_ == kind ==> total_of(
            seq![row],
            (date, model),
            kind,
        ) == row.amount,
        !(row.date == date && row.model == model && row.type_ == kind) ==> total_of(
            seq![row],
            (date, model),
            kind,
        ) == 0,
{
    assert(seq![row].drop_last() =~= Seq::empty());
    assert(total_of(seq![row].drop_last(), (date, model), kind) == 0);
}

/// What the tables add up to has exactly one entry for the date and model of every row of either
/// table, and no other entry.
pub proof fn law_each_combination_has_one_entry(
    list: Seq<TotalsView>,
    amounts: Seq<AmountView>,
    costs: Seq<CostView>,
    k: int,
    i: int,
    j: int,
)
    requires
        is_aggregate(list, amounts, costs),
    ensures
        0 <= k < amounts.len() ==> exists|n: int|
            0 <= n < list.len() && (#[trigger] list[n]).date == amounts[k].date && list[n].model
                == amounts[k].model,
        0 <= k < costs.len() ==> exists|n: int|
            0 <= n < list.len() && (#[trigger] list[n]).date == costs[k].date && list[n].model
                == costs[k].model,
        0 <= i < list.len() ==> (exists|n: int|
            0 <= n < amounts.len() && (#[trigger] amounts[n]).date == list[i].date
                && amounts[n].model == list[i].model) || (exists|n: int|
            0 <= n < costs.len() && (#[trigger] costs[n]).date == list[i].date && costs[n].model
                == list[i].model),
        0 <= i < j < list.len() ==> list[i].date != list[j].date || list[i].model != list[j].model,
        0 <= i < j < list.len() ==> text_less(list[i].date, list[j].date) || (list[i].date
            == list[j].date && text_less(list[i].model, list[j].model)),
{
    if 0 <= k < amounts.len() {
        let key = (amounts[k].date, amounts[k].model);
        assert(is_named(amounts, costs, key));
        assert(has_entry(list, key));
        let n = choose|n: int| 0 <= n < list.len() && (#[trigger] list[n]).key() == key;
        assert(list[n].date == amounts[k].date && list[n].model == amounts[k].model);
    }
    if 0 <= k < costs.len() {
        let key = (costs[k].date, costs[k].model);
        assert(is_named(amounts, costs, key));
        assert(has_entry(list, key));
        let n = choose|n: int| 0 <= n < list.len() && (#[trigger] list[n]).key() == key;
        assert(list[n].date == costs[k].date && list[n].model == costs[k].model);
    }
    if 0 <= i < list.len() {
        assert(list[i] == totals_for(amounts, costs, list[i].key()));
        assert(is_named(amounts, costs, list[i].key()));
    }
    if 0 <= i < j < list.len() {
        assert(crate::order::pair_less(list[i].key(), list[j].key()));
        crate::order::lemma_pair_order(list[i].key(), list[j].key(), list[j].key());
    }
}

/// An entry holds, for its date and model, the sum of each metric and all the costs.
pub proof fn law_entry_holds_its_sums(
    list: Seq<TotalsView>,
    amounts: Seq<AmountView>,
    costs: Seq<CostView>,
    i: int,
)
    requires
        is_aggregate(list, amounts, costs),
        0 <= i < list.len(),
    ensures
        ({
            let e = list[i];
            let key = (e.date, e.model);
            &&& e.calls == total_of(amounts, key, "request_count"@)
            &&& e.hit_tokens == total_of(amounts, key, "input_cache_hit_tokens"@)
            &&& e.miss_tokens == total_of(amounts, key, "input_cache_miss_tokens"@)
            &&& e.output_tokens == total_of(amounts, key, "output_tokens"@)
            &&& e.costs == costs.filter(
                |r: CostView| r.date == e.date && r.model == e.model,
            ).map_values(|r: CostView| r.cost)
        }),
{
    let e = list[i];
    assert(list[i] == totals_for(amounts, costs, list[i].key()));
    law_every_cost_row_counts(costs, e.date, e.model);
}

/// The sum of all amounts of a table.
pub open spec fn amount_sum(rows: Seq<AmountView>) -> nat
    decreases rows.len(),
{
    if rows.len() == 0 {
        0
    } else {
        amount_sum(rows.drop_last()) + rows.last().amount as nat
    }
}

proof fn lemma_total_within_sum(
    rows: Seq<AmountView>,
    key: (Seq<char>, Seq<char>),
    kind: Seq<char>,
)
    ensures
        total_of(rows, key, kind) <= amount_sum(rows),
    decreases rows.len(),
{
    if rows.len() > 0 {
        lemma_total_within_sum(rows.drop_last(), key, kind);
    }
}

/// Whether a text is one of the four metrics.
pub open spec fn is_metric(kind: Seq<char>) -> bool {
    kind == "request_count"@ || kind == "input_cache_hit_tokens"@ || kind
        == "input_cache_miss_tokens"@ || kind == "output_tokens"@
}

/// A table adds up exactly where every metric of every date and model stays within 64 bits; where
/// all its amounts together do, it always does.
pub proof fn law_when_totals_fit(rows: Seq<AmountView>)
    ensures
        amount_sum(rows) <= u64::MAX ==> totals_fit(rows),
        totals_fit(rows) <==> forall|date: Seq<char>, model: Seq<char>, kind: Seq<char>|
            is_metric(kind) ==> #[trigger] total_of(rows, (date, model), kind) <= u64::MAX,
{
    assert forall|key: (Seq<char>, Seq<char>), k: Seq<char>| #[trigger]
        total_of(rows, key, k) <= amount_sum(rows) by {
        lemma_total_within_sum(rows, key, k);
    }
    if totals_fit(rows) {
        assert forall|date: Seq<char>, model: Seq<char>, kind: Seq<char>| is_metric(
            kind,
        ) implies #[trigger] total_of(rows, (date, model), kind) <= u64::MAX by {
            assert(crate::usage::key_fits(rows, (date, model)));
        }
    }
    if forall|date: Seq<char>, model: Seq<char>, kind: Seq<char>|
        is_metric(kind) ==> #[trigger] total_of(rows, (date, model), kind) <= u64::MAX {
        assert forall|key: (Seq<char>, Seq<char>)| #[trigger] crate::usage::key_fits(
            rows,
            key,
        ) by {
            let date = key.0;
            let model = key.1;
            assert(key == (date, model));
            assert(total_of(rows, (date, model), "request_count"@) <= u64::MAX);
            assert(total_of(rows, (date, model), "input_cache_hit_tokens"@) <= u64::MAX);
            assert(total_of(rows, (date, model), "input_cache_miss_tokens"@) <= u64::MAX);
            assert(total_of(rows, (date, model), "output_tokens"@) <= u64::MAX);
        }
    }
}

/// Of two pieces of an amount table, one behind the other, the first error counts; without one the
/// rows of the second piece stand behind those of the first.
pub proof fn law_amount_rows_append(
    a: Seq<Result<RowView, FaultView>>,
    b: Seq<Result<RowView, FaultView>>,
    tz: int,
)
    ensures
        amounts_of(a, tz) matches Err(e) ==> amounts_of(a + b, tz) == Err::<
            Seq<AmountView>,
            ImportErrorView,
        >(e),
        amounts_of(a, tz) matches Ok(x) ==> (amounts_of(b, tz) matches Err(e) ==> amounts_of(
            a + b,
            tz,
        ) == Err::<Seq<AmountView>, ImportErrorView>(e)),
        amounts_of(a, tz) matches Ok(x) ==> (amounts_of(b, tz) matches Ok(y) ==> amounts_of(
            a + b,
            tz,
        ) == Ok::<Seq<AmountView>, ImportErrorView>(x + y)),
    decreases b.len(),
{
    if b.len() > 0 {
        law_amount_rows_append(a, b.drop_last(), tz);
        assert((a + b).drop_last() =~= a + b.drop_last());
        assert((a + b).last() == b.last());
        if let (Ok(x), Ok(y)) = (amounts_of(a, tz), amounts_of(b.drop_last(), tz)) {
            if let Ok(row) = b.last() {
                if let Ok(Some(r)) = amount_of(row, tz) {
                    assert((x + y).push(r) =~= x + y.push(r));
                }
            }
        }
    } else {
        assert(a + b =~= a);
        if let Ok(x) = amounts_of(a, tz) {
            assert(x + Seq::<AmountView>::empty() =~= x);
        }
    }
}

/// Of two pieces of a cost table, one behind the other, the first error counts; without one the
/// rows of the second piece stand behind those of the first.
pub proof fn law_cost_rows_append(
    a: Seq<Result<RowView, FaultView>>,
    b: Seq<Result<RowView, FaultView>>,
    tz: int,
)
    ensures
        costs_of(a, tz) matches Err(e) ==> costs_of(a + b, tz) == Err::<
            Seq<CostView>,
            ImportErrorView,
        >(e),
        costs_of(a, tz) matches Ok(x) ==> (costs_of(b, tz) matches Err(e) ==> costs_of(a + b, tz)
            == Err::<Seq<CostView>, ImportErrorView>(e)),
        costs_of(a, tz) matches Ok(x) ==> (costs_of(b, tz) matches Ok(y) ==> costs_of(a + b, tz)
            == Ok::<Seq<CostView>, ImportErrorView>(x + y)),
    decreases b.len(),
{
    if b.len() > 0 {
        law_cost_rows_append(a, b.drop_last(), tz);
        assert((a + b).drop_last() =~= a + b.drop_last());
        assert((a + b).last() == b.last());
        if let (Ok(x), Ok(y)) = (costs_of(a, tz), costs_of(b.drop_last(), tz)) {
            if let Ok(row) = b.last() {
                if let Ok(Some(r)) = cost_of(row, tz) {
                    assert((x + y).push(r) =~= x + y.push(r));
                }
            }
        }
    } else {
        assert(a + b =~= a);
        if let Ok(x) = costs_of(a, tz) {
            assert(x + Seq::<CostView>::empty() =~= x);
        }
    }
}

/// The line that an error names; 0 where it is not known.
pub open spec fn named_line(line: Option<u64>, n: u64) -> bool {
    line == Some(n) || (line is None && n == 0)
}

/// A row of an amount table that is not blank is read exactly where its second column is a
/// timestamp, its seventh one of the four metrics, its eighth empty or a fraction and its ninth an
/// unsigned number. It then stands for the local date of that timestamp, the model in the fourth
/// column, that metric and that number. An unknown metric is reported as it is; every other fault
/// with the row's line.
pub proof fn law_amount_row(row: RowView, tz: int, j: int)
    requires
        row.fields.len() == 9,
        0 <= j < 9,
        row.fields[j].len() > 0,
    ensures
        ({
            let f = row.fields;
            let date = timestamp_date(vstd::utf8::encode_utf8(f[1]), tz);
            let known = f[6] == "input_cache_hit_tokens"@ || f[6] == "input_cache_miss_tokens"@
                || f[6] == "output_tokens"@ || f[6] == "request_count"@;
            let priced = f[7].len() == 0 || is_fraction(f[7]);
            let r = amount_of(row, tz);
            &&& r is Ok <==> date is Some && known && priced && u64_of(f[8]) is Some
            &&& r matches Ok(a) ==> a matches Some(a) && date == Some(a.date) && a.model == f[3]
                && a.type_ == f[6] && u64_of(f[8]) == Some(a.amount)
            &&& date is Some && !known ==> r == Err::<Option<AmountView>, ImportErrorView>(
                ImportErrorView::UnknownType(f[6]),
            )
            &&& r is Err && (date is None || known) ==> (r->Err_0 matches ImportErrorView::BadLine(
                which,
                n,
                detail,
            ) && which == "amount"@ && named_line(row.line, n) && detail == if date is None {
                "日期格式非法: "@ + f[1]
            } else if !priced {
                "price 非数字: "@ + f[7]
            } else {
                "amount 非非负整数: "@ + f[8]
            })
        }),
{
    assert(!crate::tables::is_blank(row));
}

/// A row of a cost table that is not blank is read exactly where its second column is a timestamp,
/// its fifth one of the two wallets and its sixth a fraction. It then stands for the local date of
/// that timestamp, the model in the fourth column and that fraction, whichever the wallet is. Every
/// fault is reported with the row's line.
pub proof fn law_cost_row(row: RowView, tz: int, j: int)
    requires
        row.fields.len() == 7,
        0 <= j < 7,
        row.fields[j].len() > 0,
    ensures
        ({
            let f = row.fields;
            let date = timestamp_date(vstd::utf8::encode_utf8(f[1]), tz);
            let r = cost_of(row, tz);
            &&& r is Ok <==> date is Some && (f[4] == "Paid"@ || f[4] == "Granted"@)
                && is_fraction(f[5])
            &&& r matches Ok(c) ==> c matches Some(c) && date == Some(c.date) && c.model == f[3]
                && c.cost == f[5]
            &&& r matches Err(e) ==> (e matches ImportErrorView::BadLine(which, n, detail) && which
                == "cost"@ && named_line(row.line, n) && detail == if date is None {
                "日期格式非法: "@ + f[1]
            } else if f[4] != "Paid"@ && f[4] != "Granted"@ {
                "未知 wallet_type: "@ + f[4]
            } else {
                "cost 非数字: "@ + f[5]
            })
        }),
{
    assert(!crate::tables::is_blank(row));
}

/// Blank rows stand for nothing, single rows for what they say, and a row that could not be read is
/// reported with its line and reason.
pub proof fn law_single_rows(row: RowView, fault: FaultView, tz: int)
    ensures
        (forall|i: int| 0 <= i < row.fields.len() ==> (#[trigger] row.fields[i]).len() == 0)
            ==> amount_of(row, tz) == Ok::<Option<AmountView>, ImportErrorView>(None) && cost_of(
            row,
            tz,
        ) == Ok::<Option<CostView>, ImportErrorView>(None),
        amounts_of(Seq::empty(), tz) == Ok::<Seq<AmountView>, ImportErrorView>(Seq::empty()),
        costs_of(Seq::empty(), tz) == Ok::<Seq<CostView>, ImportErrorView>(Seq::empty()),
        amount_of(row, tz) matches Ok(a) ==> (amounts_of(
            seq![Ok::<RowView, FaultView>(row)],
            tz,
        ) matches Ok(v) && (a matches Some(a) ==> v == seq![a]) && (a is None ==> v
            == Seq::<AmountView>::empty())),
        cost_of(row, tz) matches Ok(c) ==> (costs_of(
            seq![Ok::<RowView, FaultView>(row)],
            tz,
        ) matches Ok(v) && (c matches Some(c) ==> v == seq![c]) && (c is None ==> v
            == Seq::<CostView>::empty())),
        amount_of(row, tz) matches Err(e) ==> amounts_of(
            seq![Ok::<RowView, FaultView>(row)],
            tz,
        ) == Err::<Seq<AmountView>, ImportErrorView>(e),
        cost_of(row, tz) matches Err(e) ==> costs_of(seq![Ok::<RowView, FaultView>(row)], tz)
            == Err::<Seq<CostView>, ImportErrorView>(e),
        amounts_of(seq![Err::<RowView, FaultView>(fault)], tz) matches Err(
            ImportErrorView::BadLine(which, n, detail),
        ) && which == "amount"@ && named_line(fault.line, n) && detail == fault.message,
        costs_of(seq![Err::<RowView, FaultView>(fault)], tz) matches Err(
            ImportErrorView::BadLine(which, n, detail),
        ) && which == "cost"@ && named_line(fault.line, n) && detail == fault.message,
{
    let good = seq![Ok::<RowView, FaultView>(row)];
    let bad = seq![Err::<RowView, FaultView>(fault)];
    let none = Seq::<Result<RowView, FaultView>>::empty();
    assert(good.drop_last() =~= none);
    assert(bad.drop_last() =~= none);
    assert(amounts_of(none, tz) == Ok::<Seq<AmountView>, ImportErrorView>(Seq::empty()));
    assert(costs_of(none, tz) == Ok::<Seq<CostView>, ImportErrorView>(Seq::empty()));
    if let Ok(Some(a)) = amount_of(row, tz) {
        assert(Seq::<AmountView>::empty().push(a) =~= seq![a]);
    }
    if let Ok(Some(c)) = cost_of(row, tz) {
        assert(Seq::<CostView>::empty().push(c) =~= seq![c]);
    }
}

/// A table is read exactly where its first record names the expected columns; a byte order mark at
/// its front makes no difference.
pub proof fn law_tables_by_their_columns(text: Seq<char>, tz: int)
    requires
        text.len() == 0 || text[0] != '\u{feff}',
    ensures
        amount_table(seq!['\u{feff}'] + text, tz) == amount_table(text, tz),
        cost_table(seq!['\u{feff}'] + text, tz) == cost_table(text, tz),
        csv_header_of(text) == Ok::<Seq<Seq<char>>, FaultView>(
            seq![
                "user_id"@,
                "start_time_iso"@,
                "end_time_iso"@,
                "model"@,
                "api_key_name"@,
                "api_key"@,
                "type"@,
                "price"@,
                "amount"@,
            ],
        ) ==> amount_table(text, tz) == amounts_of(csv_rows_of(text), tz),
        csv_header_of(text) == Ok::<Seq<Seq<char>>, FaultView>(
            seq![
                "user_id"@,
                "start_time_iso"@,
                "end_time_iso"@,
                "model"@,
                "wallet_type"@,
                "cost"@,
                "currency"@,
            ],
        ) ==> cost_table(text, tz) == costs_of(csv_rows_of(text), tz),
        csv_header_of(text) matches Ok(h) && h.len() != 9 ==> amount_table(text, tz) is Err,
        csv_header_of(text) matches Ok(h) && h.len() != 7 ==> cost_table(text, tz) is Err,
        csv_header_of(text) is Err ==> amount_table(text, tz) is Err && cost_table(text, tz) is Err,
{
    let marked = seq!['\u{feff}'] + text;
    assert(marked.skip(1) =~= text);
}

/// The columns of a refused header are listed one behind the other.
pub proof fn law_listed_columns(a: Seq<Seq<char>>, b: Seq<Seq<char>>, x: Seq<char>)
    ensures
        debug_items(seq![x]) == debug_form(x),
        a.len() > 0 && b.len() > 0 ==> debug_items(a + b) == debug_items(a) + ", "@ + debug_items(b),
    decreases b.len(),
{
    if a.len() > 0 && b.len() > 0 {
        assert((a + b).drop_last() =~= a + b.drop_last());
        assert((a + b).last() == b.last());
        if b.len() == 1 {
            assert(a + b.drop_last() =~= a);
            assert(debug_items(b) == debug_form(b[0]));
        } else {
            law_listed_columns(a, b.drop_last(), x);
            assert(debug_items(a) + ", "@ + debug_items(b) =~= debug_items(a) + ", "@ + debug_items(
                b.drop_last(),
            ) + ", "@ + debug_form(b.last()));
        }
    }
}

/// Whether an entry of an archive is a table with this prefix.
pub open spec fn is_table(e: ZipEntryView, prefix: Seq<char>) -> bool {
    e.name matches Ok(name) && prefix.is_prefix_of(name) && ".csv"@.is_suffix_of(name)
}

/// Whether `text` is that of the first table with this prefix; none where there is no such table.
pub open spec fn is_first_table(
    entries: Seq<ZipEntryView>,
    prefix: Seq<char>,
    text: Option<Seq<char>>,
) -> bool {
    match text {
        None => forall|k: int| 0 <= k < entries.len() ==> !is_table(#[trigger] entries[k], prefix),
        Some(t) => exists|k: int|
            {
                &&& 0 <= k < entries.len()
                &&& is_table(#[trigger] entries[k], prefix)
                &&& forall|j: int| 0 <= j < k ==> !is_table(#[trigger] entries[j], prefix)
                &&& entries[k].bytes matches Ok(b) && vstd::utf8::valid_utf8(b) && t
                    == vstd::utf8::decode_utf8(b)
            },
    }
}

proof fn lemma_first_table_push(
    entries: Seq<ZipEntryView>,
    e: ZipEntryView,
    prefix: Seq<char>,
    before: Option<Seq<char>>,
    after: Option<Seq<char>>,
)
    requires
        is_first_table(entries, prefix, before),
        before is Some || !is_table(e, prefix) ==> after == before,
        before is None && is_table(e, prefix) ==> (e.bytes matches Ok(b) && vstd::utf8::valid_utf8(b)
            && after == Some(vstd::utf8::decode_utf8(b))),
    ensures
        is_first_table(entries.push(e), prefix, after),
{
    let all = entries.push(e);
    assert forall|k: int| 0 <= k < entries.len() implies all[k] == entries[k] by {}
    if let Some(t) = before {
        let k = choose|k: int|
            {
                &&& 0 <= k < entries.len()
                &&& is_table(#[trigger] entries[k], prefix)
                &&& forall|j: int| 0 <= j < k ==> !is_table(#[trigger] entries[j], prefix)
                &&& entries[k].bytes matches Ok(b) && vstd::utf8::valid_utf8(b) && t
                    == vstd::utf8::decode_utf8(b)
            };
        assert(is_table(all[k], prefix));
        assert forall|j: int| 0 <= j < k implies !is_table(#[trigger] all[j], prefix) by {
            assert(all[j] == entries[j]);
        }
    } else {
        assert forall|j: int| 0 <= j < entries.len() implies !is_table(
            #[trigger] all[j],
            prefix,
        ) by {
            assert(all[j] == entries[j]);
        }
        if is_table(e, prefix) {
            assert(is_table(all[entries.len() as int], prefix));
        }
    }
}

proof fn lemma_prefixes_differ(name: Seq<char>)
    ensures
        !("amount-"@.is_prefix_of(name) && "cost-"@.is_prefix_of(name)),
{
    reveal_strlit("amount-");
    reveal_strlit("cost-");
    if "amount-"@.is_prefix_of(name) && "cost-"@.is_prefix_of(name) {
        assert("amount-"@[0] == name[0]);
        assert("cost-"@[0] == name[0]);
    }
}

/// Of an archive the first `amount-*.csv` and the first `cost-*.csv` count, whatever else it holds
/// and in whatever order; an archive whose entries can all be read is never refused here.
pub proof fn law_first_tables_count(entries: Seq<ZipEntryView>)
    ensures
        find_tables(entries) matches Ok(found) ==> is_first_table(
            entries,
            "amount-"@,
            found.amount,
        ) && is_first_table(entries, "cost-"@, found.cost),
        find_tables(entries) is Ok ==> forall|k: int|
            0 <= k < entries.len() ==> (#[trigger] entries[k]).name is Ok,
        (forall|k: int|
            0 <= k < entries.len() ==> (#[trigger] entries[k]).name is Ok && (entries[k].bytes
                matches Ok(b) && vstd::utf8::valid_utf8(b))) ==> find_tables(entries) is Ok,
    decreases entries.len(),
{
    if entries.len() > 0 {
        let front = entries.drop_last();
        let e = entries.last();
        assert(entries =~= front.push(e));
        law_first_tables_count(front);
        assert forall|k: int| 0 <= k < front.len() implies front[k] == entries[k] by {}
        assert(entries[entries.len() - 1] == e);
        if let Ok(name) = e.name {
            lemma_prefixes_differ(name);
        }
        if let Ok(found) = find_tables(entries) {
            if let Ok(before) = find_tables(front) {
                lemma_first_table_push(front, e, "amount-"@, before.amount, found.amount);
                lemma_first_table_push(front, e, "cost-"@, before.cost, found.cost);
                assert forall|k: int| 0 <= k < entries.len() implies (
                #[trigger] entries[k]).name is Ok by {
                    if k < front.len() {
                        assert(front[k].name is Ok);
                    }
                }
            }
        }
        if forall|k: int|
            0 <= k < entries.len() ==> (#[trigger] entries[k]).name is Ok && (entries[k].bytes
                matches Ok(b) && vstd::utf8::valid_utf8(b)) {
            assert forall|k: int| 0 <= k < front.len() implies (#[trigger] front[k]).name is Ok && (
            front[k].bytes matches Ok(b) && vstd::utf8::valid_utf8(b)) by {
                assert(front[k] == entries[k]);
            }
        }
    }
}

/// An entry is a table by the beginning and the end of its name alone.
pub proof fn law_table_names(name: Seq<char>)
    ensures
        table_of(name) == Table::Amount <==> "amount-"@.is_prefix_of(name) && ".csv"@.is_suffix_of(
            name,
        ),
        table_of(name) == Table::Cost <==> "cost-"@.is_prefix_of(name) && ".csv"@.is_suffix_of(
            name,
        ),
{
    lemma_prefixes_differ(name);
}

/// An export needs both tables; its result is what each of them says by itself.
pub proof fn law_both_tables_are_needed(found: FoundView, tz: int)
    ensures
        both_tables(found, tz) matches Ok(t) ==> {
            &&& found.amount is Some && found.cost is Some
            &&& amount_table(found.amount->Some_0, tz) == Ok::<Seq<AmountView>, ImportErrorView>(t.0)
            &&& cost_table(found.cost->Some_0, tz) == Ok::<Seq<CostView>, ImportErrorView>(t.1)
        },
        found.amount is Some && found.cost is Some && amount_table(found.amount->Some_0, tz) is Ok
            && cost_table(found.cost->Some_0, tz) is Ok ==> both_tables(found, tz) is Ok,
        found.amount is None ==> both_tables(found, tz) == Err::<
            (Seq<AmountView>, Seq<CostView>),
            ImportErrorView,
        >(ImportErrorView::MissingCsv("amount-*.csv"@)),
        found.amount is Some && found.cost is None ==> both_tables(found, tz) == Err::<
            (Seq<AmountView>, Seq<CostView>),
            ImportErrorView,
        >(ImportErrorView::MissingCsv("cost-*.csv"@)),
{
}

/// A row for a model that is new to a date is put behind the others; otherwise it takes the place
/// of the first row for that model, and all other rows stay.
pub proof fn law_upsert<M>(rows: Seq<UsageView<M>>, row: UsageView<M>)
    ensures
        (forall|i: int| 0 <= i < rows.len() ==> (#[trigger] rows[i]).model != row.model)
            ==> upsert_rows(rows, row) == rows.push(row),
        forall|k: int|
            0 <= k < rows.len() && (#[trigger] rows[k]).model == row.model && (forall|i: int|
                0 <= i < k ==> (#[trigger] rows[i]).model != row.model) ==> upsert_rows(rows, row)
                == rows.update(k, row),
    decreases rows.len(),
{
    if rows.len() > 0 && rows[0].model != row.model {
        let rest = rows.skip(1);
        law_upsert(rest, row);
        assert forall|i: int| 0 <= i < rest.len() implies rest[i] == rows[i + 1] by {}
        if forall|i: int| 0 <= i < rows.len() ==> (#[trigger] rows[i]).model != row.model {
            assert forall|i: int| 0 <= i < rest.len() implies (#[trigger] rest[i]).model
                != row.model by {
                assert(rest[i] == rows[i + 1]);
            }
            assert(seq![rows[0]] + rest.push(row) =~= rows.push(row));
        }
        assert forall|k: int|
            0 <= k < rows.len() && (#[trigger] rows[k]).model == row.model && (forall|i: int|
                0 <= i < k ==> (#[trigger] rows[i]).model != row.model) implies upsert_rows(
            rows,
            row,
        ) == rows.update(k, row) by {
            assert(rest[k - 1].model == row.model);
            assert forall|i: int| 0 <= i < k - 1 implies (#[trigger] rest[i]).model != row.model by {
                assert(rest[i] == rows[i + 1]);
            }
            assert(seq![rows[0]] + rest.update(k - 1, row) =~= rows.update(k, row));
        }
    } else if rows.len() == 0 {
        assert(rows.push(row) =~= seq![row]);
    }
}

/// Importing rows in two goes is importing them in one.
pub proof fn law_imports_append<M>(
    days: DayMap<M>,
    a: Seq<(Seq<char>, UsageView<M>)>,
    b: Seq<(Seq<char>, UsageView<M>)>,
)
    ensures
        put_rows(days, a + b) == put_rows(put_rows(days, a), b),
        replaced_count(days, a + b) == replaced_count(days, a) + replaced_count(
            put_rows(days, a),
            b,
        ),
    decreases b.len(),
{
    if b.len() > 0 {
        law_imports_append(days, a, b.drop_last());
        assert((a + b).drop_last() =~= a + b.drop_last());
        assert((a + b).last() == b.last());
    } else {
        assert(a + b =~= a);
    }
}

/// Importing one row changes its own date alone. It counts as replaced exactly where that date
/// already had a row for its model.
pub proof fn law_import_of_one_row<M>(days: DayMap<M>, row: (Seq<char>, UsageView<M>))
    ensures
        put_rows(days, Seq::empty()) == days,
        replaced_count(days, Seq::empty()) == 0,
        put_rows(days, seq![row]) == days.insert(
            row.0,
            upsert_rows(
                if days.dom().contains(row.0) {
                    days[row.0]
                } else {
                    Seq::empty()
                },
                row.1,
            ),
        ),
        replaced_count(days, seq![row]) == 1 <==> days.dom().contains(row.0) && (exists|i: int|
            0 <= i < days[row.0].len() && (#[trigger] days[row.0][i]).model == row.1.model),
        replaced_count(days, seq![row]) <= 1,
{
    let one = seq![row];
    assert(one.drop_last() =~= Seq::empty());
    assert(put_rows(days, one.drop_last()) == days);
    assert(replaced_count(days, one.drop_last()) == 0);
    assert(rows_of(days, row.0) == if days.dom().contains(row.0) {
        days[row.0]
    } else {
        Seq::empty()
    });
}

/// The dates and models that an import counts are those of its rows.
pub proof fn law_counted_dates_and_models<M>(
    rows: Seq<(Seq<char>, UsageView<M>)>,
    text: Seq<char>,
)
    ensures
        row_dates(rows).contains(text) <==> exists|i: int|
            0 <= i < rows.len() && (#[trigger] rows[i]).0 == text,
        row_models(rows).contains(text) <==> exists|i: int|
            0 <= i < rows.len() && (#[trigger] rows[i]).1.model == text,
{
    let dates = rows.map_values(|r: (Seq<char>, UsageView<M>)| r.0);
    let models = rows.map_values(|r: (Seq<char>, UsageView<M>)| r.1.model);
    if exists|i: int| 0 <= i < rows.len() && (#[trigger] rows[i]).0 == text {
        let i = choose|i: int| 0 <= i < rows.len() && (#[trigger] rows[i]).0 == text;
        assert(dates[i] == text);
    }
    if exists|i: int| 0 <= i < rows.len() && (#[trigger] rows[i]).1.model == text {
        let i = choose|i: int| 0 <= i < rows.len() && (#[trigger] rows[i]).1.model == text;
        assert(models[i] == text);
    }
    if row_dates(rows).contains(text) {
        let i = choose|i: int| 0 <= i < dates.len() && dates[i] == text;
        assert(rows[i].0 == text);
    }
    if row_models(rows).contains(text) {
        let i = choose|i: int| 0 <= i < models.len() && models[i] == text;
        assert(rows[i].1.model == text);
    }
}

/// Rows for other models of the same date keep their place and their content.
pub proof fn law_import_leaves_other_models<M>(
    rows: Seq<UsageView<M>>,
    row: UsageView<M>,
    k: int,
)
    requires
        0 <= k < rows.len(),
        rows[k].model != row.model,
    ensures
        k < upsert_rows(rows, row).len(),
        upsert_rows(rows, row)[k] == rows[k],
{
    law_upsert(rows, row);
    if exists|i: int| 0 <= i < rows.len() && (#[trigger] rows[i]).model == row.model {
        let i = choose|i: int| 0 <= i < rows.len() && (#[trigger] rows[i]).model == row.model;
        let f = first_for(rows, row.model, i);
        assert(rows[f].model == row.model);
    }
}

/// The first place of a model at or before `i`, where it stands at `i`.
proof fn first_for<M>(rows: Seq<UsageView<M>>, model: Seq<char>, i: int) -> (f: int)
    requires
        0 <= i < rows.len(),
        rows[i].model == model,
    ensures
        0 <= f <= i,
        rows[f].model == model,
        forall|j: int| 0 <= j < f ==> (#[trigger] rows[j]).model != model,
    decreases i,
{
    if exists|j: int| 0 <= j < i && (#[trigger] rows[j]).model == model {
        let j = choose|j: int| 0 <= j < i && (#[trigger] rows[j]).model == model;
        first_for(rows, model, j)
    } else {
        i
    }
}

/// A date has a model exactly where one of its rows is for it.
pub proof fn law_has_model<M>(rows: Seq<UsageView<M>>, row: UsageView<M>, model: Seq<char>)
    ensures
        !has_model(Seq::<UsageView<M>>::empty(), model),
        has_model(rows.push(row), model) <==> row.model == model || has_model(rows, model),
{
    let after = rows.push(row);
    if row.model == model {
        assert(after[rows.len() as int].model == model);
    }
    if has_model(rows, model) {
        let i = choose|i: int| 0 <= i < rows.len() && (#[trigger] rows[i]).model == model;
        assert(after[i].model == model);
    }
    if has_model(after, model) && row.model != model {
        let i = choose|i: int| 0 <= i < after.len() && (#[trigger] after[i]).model == model;
        assert(rows[i].model == model);
    }
}

/// The sum of the first `n` values of a function.
pub open spec fn sum_to(f: spec_fn(int) -> nat, n: nat) -> nat
    decreases n,
{
    if n == 0 {
        0
    } else {
        sum_to(f, (n - 1) as nat) + f(n - 1)
    }
}

proof fn lemma_sum_same(f: spec_fn(int) -> nat, g: spec_fn(int) -> nat, n: nat)
    requires
        forall|i: int| 0 <= i < n ==> #[trigger] f(i) == g(i),
    ensures
        sum_to(f, n) == sum_to(g, n),
    decreases n,
{
    if n > 0 {
        assert(f(n - 1) == g(n - 1));
        lemma_sum_same(f, g, (n - 1) as nat);
    }
}

proof fn lemma_sum_one_more(
    f: spec_fn(int) -> nat,
    g: spec_fn(int) -> nat,
    n: nat,
    j: int,
    x: nat,
)
    requires
        0 <= j < n,
        forall|i: int|
            0 <= i < n ==> #[trigger] g(i) == f(i) + if i == j {
                x
            } else {
                0
            },
    ensures
        sum_to(g, n) == sum_to(f, n) + x,
    decreases n,
{
    assert(g(n - 1) == f(n - 1) + if n - 1 == j {
        x
    } else {
        0
    });
    if n - 1 == j {
        assert forall|i: int| 0 <= i < n - 1 implies #[trigger] f(i) == g(i) by {
            assert(g(i) == f(i) + if i == j {
                x
            } else {
                0
            });
        }
        lemma_sum_same(f, g, (n - 1) as nat);
    } else {
        lemma_sum_one_more(f, g, (n - 1) as nat, j, x);
    }
}

/// The sum of one metric over all rows of a table.
pub open spec fn metric_sum(rows: Seq<AmountView>, kind: Seq<char>) -> nat
    decreases rows.len(),
{
    if rows.len() == 0 {
        0
    } else {
        metric_sum(rows.drop_last(), kind) + if rows.last().type_ == kind {
            rows.last().amount as nat
        } else {
            0
        }
    }
}

proof fn lemma_metric_spread(
    list: Seq<TotalsView>,
    rows: Seq<AmountView>,
    kind: Seq<char>,
)
    requires
        forall|i: int, j: int|
            0 <= i < j < list.len() ==> (#[trigger] list[i]).key() != (#[trigger] list[j]).key(),
        forall|k: int|
            0 <= k < rows.len() ==> has_entry(
                list,
                ((#[trigger] rows[k]).date, rows[k].model),
            ),
    ensures
        sum_to(|i: int| total_of(rows, list[i].key(), kind), list.len()) == metric_sum(rows, kind),
    decreases rows.len(),
{
    let g = |i: int| total_of(rows, list[i].key(), kind);
    if rows.len() > 0 {
        let front = rows.drop_last();
        let r = rows.last();
        let f = |i: int| total_of(front, list[i].key(), kind);
        assert forall|k: int| 0 <= k < front.len() implies has_entry(
            list,
            ((#[trigger] front[k]).date, front[k].model),
        ) by {
            assert(front[k] == rows[k]);
        }
        lemma_metric_spread(list, front, kind);
        assert(rows[rows.len() - 1] == r);
        assert(has_entry(list, (r.date, r.model)));
        let j = choose|j: int|
            0 <= j < list.len() && (#[trigger] list[j]).key() == (r.date, r.model);
        let x: nat = if r.type_ == kind {
            r.amount as nat
        } else {
            0
        };
        assert forall|i: int| 0 <= i < list.len() implies #[trigger] g(i) == f(i) + if i == j {
            x
        } else {
            0
        } by {
            if i < j {
                assert(list[i].key() != list[j].key());
            } else if j < i {
                assert(list[j].key() != list[i].key());
            }
        }
        lemma_sum_one_more(f, g, list.len(), j, x);
    } else {
        lemma_sum_zero(g, list.len());
    }
}

proof fn lemma_sum_zero(f: spec_fn(int) -> nat, n: nat)
    requires
        forall|i: int| 0 <= i < n ==> #[trigger] f(i) == 0,
    ensures
        sum_to(f, n) == 0,
    decreases n,
{
    if n > 0 {
        assert(f(n - 1) == 0);
        lemma_sum_zero(f, (n - 1) as nat);
    }
}

proof fn lemma_cost_spread(list: Seq<TotalsView>, rows: Seq<CostView>)
    requires
        forall|i: int, j: int|
            0 <= i < j < list.len() ==> (#[trigger] list[i]).key() != (#[trigger] list[j]).key(),
        forall|k: int|
            0 <= k < rows.len() ==> has_entry(
                list,
                ((#[trigger] rows[k]).date, rows[k].model),
            ),
    ensures
        sum_to(|i: int| costs_for(rows, list[i].key()).len(), list.len()) == rows.len(),
    decreases rows.len(),
{
    let g = |i: int| costs_for(rows, list[i].key()).len();
    if rows.len() > 0 {
        let front = rows.drop_last();
        let r = rows.last();
        let f = |i: int| costs_for(front, list[i].key()).len();
        assert forall|k: int| 0 <= k < front.len() implies has_entry(
            list,
            ((#[trigger] front[k]).date, front[k].model),
        ) by {
            assert(front[k] == rows[k]);
        }
        lemma_cost_spread(list, front);
        assert(rows[rows.len() - 1] == r);
        assert(has_entry(list, (r.date, r.model)));
        let j = choose|j: int|
            0 <= j < list.len() && (#[trigger] list[j]).key() == (r.date, r.model);
        assert forall|i: int| 0 <= i < list.len() implies #[trigger] g(i) == f(i) + if i == j {
            1nat
        } else {
            0
        } by {
            if i < j {
                assert(list[i].key() != list[j].key());
            } else if j < i {
                assert(list[j].key() != list[i].key());
            }
        }
        lemma_sum_one_more(f, g, list.len(), j, 1);
    } else {
        lemma_sum_zero(g, list.len());
    }
}

/// Nothing is lost and nothing counted twice: over all entries, calls and tokens add up to what the
/// amount table holds of them, and there are as many costs as the cost table has rows.
pub proof fn law_nothing_is_lost(
    list: Seq<TotalsView>,
    amounts: Seq<AmountView>,
    costs: Seq<CostView>,
)
    requires
        is_aggregate(list, amounts, costs),
    ensures
        sum_to(|i: int| list[i].calls, list.len()) == metric_sum(amounts, "request_count"@),
        sum_to(|i: int| list[i].hit_tokens, list.len()) == metric_sum(
            amounts,
            "input_cache_hit_tokens"@,
        ),
        sum_to(|i: int| list[i].miss_tokens, list.len()) == metric_sum(
            amounts,
            "input_cache_miss_tokens"@,
        ),
        sum_to(|i: int| list[i].output_tokens, list.len()) == metric_sum(amounts, "output_tokens"@),
        sum_to(|i: int| list[i].costs.len(), list.len()) == costs.len(),
{
    assert forall|i: int, j: int| 0 <= i < j < list.len() implies (#[trigger] list[i]).key() != (
    #[trigger] list[j]).key() by {
        law_each_combination_has_one_entry(list, amounts, costs, 0, i, j);
    }
    assert forall|k: int| 0 <= k < amounts.len() implies has_entry(
        list,
        ((#[trigger] amounts[k]).date, amounts[k].model),
    ) by {
        assert(is_named(amounts, costs, (amounts[k].date, amounts[k].model)));
    }
    assert forall|k: int| 0 <= k < costs.len() implies has_entry(
        list,
        ((#[trigger] costs[k]).date, costs[k].model),
    ) by {
        assert(is_named(amounts, costs, (costs[k].date, costs[k].model)));
    }
    assert forall|i: int| 0 <= i < list.len() implies #[trigger] list[i] == totals_for(
        amounts,
        costs,
        list[i].key(),
    ) by {}
    let n = list.len();
    lemma_metric_spread(list, amounts, "request_count"@);
    lemma_sum_same(
        |i: int| list[i].calls,
        |i: int| total_of(amounts, list[i].key(), "request_count"@),
        n,
    );
    lemma_metric_spread(list, amounts, "input_cache_hit_tokens"@);
    lemma_sum_same(
        |i: int| list[i].hit_tokens,
        |i: int| total_of(amounts, list[i].key(), "input_cache_hit_tokens"@),
        n,
    );
    lemma_metric_spread(list, amounts, "input_cache_miss_tokens"@);
    lemma_sum_same(
        |i: int| list[i].miss_tokens,
        |i: int| total_of(amounts, list[i].key(), "input_cache_miss_tokens"@),
        n,
    );
    lemma_metric_spread(list, amounts, "output_tokens"@);
    lemma_sum_same(
        |i: int| list[i].output_tokens,
        |i: int| total_of(amounts, list[i].key(), "output_tokens"@),
        n,
    );
    lemma_cost_spread(list, costs);
    lemma_sum_same(
        |i: int| list[i].costs.len(),
        |i: int| costs_for(costs, list[i].key()).len(),
        n,
    );
}

/// The first entry of an archive that cannot be named, read or decoded ends the search with its own
/// error; entries that are no table, or a second one of their kind, are not read.
pub proof fn law_archive_errors(entries: Seq<ZipEntryView>, e: ZipEntryView)
    ensures
        find_tables(Seq::empty()) matches Ok(found) && found.amount is None && found.cost is None,
        find_tables(entries) is Err ==> find_tables(entries.push(e)) == find_tables(entries),
        find_tables(entries) matches Ok(found) ==> {
            let first = (is_table(e, "amount-"@) && found.amount is None) || (is_table(
                e,
                "cost-"@,
            ) && found.cost is None);
            let r = find_tables(entries.push(e));
            &&& e.name matches Err(x) ==> r == Err::<FoundView, ImportErrorView>(
                ImportErrorView::Zip(x),
            )
            &&& first && e.bytes is Err ==> r == Err::<FoundView, ImportErrorView>(
                ImportErrorView::Zip(e.bytes->Err_0),
            )
            &&& first && (e.bytes matches Ok(b) && !vstd::utf8::valid_utf8(b)) ==> r == Err::<
                FoundView,
                ImportErrorView,
            >(ImportErrorView::Encoding)
            &&& e.name is Ok && !first ==> r == Ok::<FoundView, ImportErrorView>(found)
        },
{
    assert(entries.push(e).drop_last() =~= entries);
    assert(entries.push(e).last() == e);
    if let Ok(name) = e.name {
        lemma_prefixes_differ(name);
    }
}

/// An export says what its two tables say; an archive that cannot be opened is reported as such.
pub proof fn law_exports(bytes: Seq<u8>, tz: int)
    ensures
        zip_contents(bytes) matches Err(e) ==> export_tables(bytes, tz) == Err::<
            (Seq<AmountView>, Seq<CostView>),
            ImportErrorView,
        >(ImportErrorView::Zip(e)),
        zip_contents(bytes) matches Ok(entries) ==> (find_tables(entries) matches Err(e)
            ==> export_tables(bytes, tz) == Err::<
            (Seq<AmountView>, Seq<CostView>),
            ImportErrorView,
        >(e)),
        zip_contents(bytes) matches Ok(entries) ==> (find_tables(entries) matches Ok(found)
            ==> export_tables(bytes, tz) == both_tables(found, tz)),
{
}

/// An import ends with the error of its tables, with nothing where a total exceeds 64 bits, with an
/// error where there is no row at all, and otherwise with what the tables add up to.
pub proof fn law_import_outcomes(
    tables: Result<(Seq<AmountView>, Seq<CostView>), ImportErrorView>,
    r: Result<Option<Vec<UsageTotals>>, ImportError>,
)
    requires
        import_outcome(tables, r),
    ensures
        tables matches Err(e) ==> r is Err && r->Err_0@ == e,
        tables matches Ok(t) ==> {
            &&& r is Err <==> totals_fit(t.0) && t.0.len() == 0 && t.1.len() == 0
            &&& r matches Err(x) ==> x@ == ImportErrorView::EmptyData
            &&& r matches Ok(list) ==> (list is None <==> !totals_fit(t.0))
            &&& r matches Ok(Some(list)) ==> is_aggregate(totals_views(list@), t.0, t.1)
                && list@.len() > 0
        },
{
    if let Ok(t) = tables {
        if let Ok(Some(list)) = r {
            let views = totals_views(list@);
            if t.0.len() > 0 {
                assert(is_named(t.0, t.1, (t.0[0].date, t.0[0].model)));
                assert(has_entry(views, (t.0[0].date, t.0[0].model)));
            } else {
                assert(is_named(t.0, t.1, (t.1[0].date, t.1[0].model)));
                assert(has_entry(views, (t.1[0].date, t.1[0].model)));
            }
        }
    }
}

/// Of a refused header the number of columns that were expected, the number that there are, and the
/// columns themselves are reported.
pub proof fn law_refused_headers(text: Seq<char>, tz: int, h: Seq<Seq<char>>)
    requires
        text.len() == 0 || text[0] != '\u{feff}',
        csv_header_of(text) == Ok::<Seq<Seq<char>>, FaultView>(h),
    ensures
        h != crate::tables::amount_columns() ==> amount_table(text, tz) == Err::<
            Seq<AmountView>,
            ImportErrorView,
        >(
            ImportErrorView::BadHeader(
                "amount"@,
                "期望 "@ + digits(9) + " 列,实际 "@ + digits(h.len()) + " 列: ["@ + debug_items(h)
                    + "]"@,
            ),
        ),
        h != crate::tables::cost_columns() ==> cost_table(text, tz) == Err::<
            Seq<CostView>,
            ImportErrorView,
        >(
            ImportErrorView::BadHeader(
                "cost"@,
                "期望 "@ + digits(7) + " 列,实际 "@ + digits(h.len()) + " 列: ["@ + debug_items(h)
                    + "]"@,
            ),
        ),
{
}

/// One byte order mark is taken off, and only from the front.
pub proof fn law_byte_order_mark(text: Seq<char>)
    ensures
        without_bom(seq!['\u{feff}'] + text) == text,
        text.len() == 0 || text[0] != '\u{feff}' ==> without_bom(text) == text,
{
    assert((seq!['\u{feff}'] + text).skip(1) =~= text);
}

/// A column that a row lacks reads as an empty text.
pub proof fn law_columns(row: RowView, i: int)
    ensures
        0 <= i < row.fields.len() ==> field_at(row, i) == row.fields[i],
        i >= row.fields.len() ==> field_at(row, i).len() == 0,
{
}

/// Totals with their costs make rows in the same order, each with its own date, model and numbers,
/// and with its own cost.
pub proof fn law_priced_rows<M>(list: Seq<TotalsView>, costs: Seq<M>, i: int)
    requires
        0 <= i < list.len(),
    ensures
        ({
            let rows = priced_views(list, costs);
            &&& rows.len() == list.len()
            &&& rows[i].0 == list[i].date
            &&& rows[i].1.model == list[i].model
            &&& list[i].calls <= u64::MAX ==> rows[i].1.calls == list[i].calls
            &&& list[i].hit_tokens <= u64::MAX ==> rows[i].1.hit_tokens == list[i].hit_tokens
            &&& list[i].miss_tokens <= u64::MAX ==> rows[i].1.miss_tokens == list[i].miss_tokens
            &&& list[i].output_tokens <= u64::MAX ==> rows[i].1.output_tokens
                == list[i].output_tokens
            &&& rows[i].1.cost == costs[i]
        }),
{
}

} // verus!
