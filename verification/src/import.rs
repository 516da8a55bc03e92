//! Importing a usage export: a zip archive with an amount table and a cost table.
use vstd::prelude::*;
use vstd::string::*;

use crate::order::{lemma_pair_order, pair_less};
use crate::state::{
    has_model, put_row, rows_of, upsert_rows, DataFile, DayMap, DayModelUsage, UsageView,
};
use crate::tables::{
    amount_table, amount_views, cost_table, cost_views, law_amounts_have_known_types,
    parse_amount_csv, parse_cost_csv, AmountView, CostView, ImportError, ImportErrorView,
};
use crate::text::{begins_with, finishes_with, option_text, text_eq, texts};
use crate::usage::{
    aggregate, is_aggregate, is_named, totals_fit, totals_sorted, totals_views, TotalsView, UsageTotals,
};

verus! {

/// The archive type of `zip`, carried through as it is.
#[verifier::external_type_specification]
#[verifier::external_body]
#[verifier::reject_recursive_types(R)]
pub struct ExZipArchive<R>(zip::ZipArchive<R>);

/// The cursor of std over bytes, carried through as it is.
#[verifier::external_type_specification]
#[verifier::external_body]
#[verifier::reject_recursive_types(T)]
pub struct ExCursor<T>(std::io::Cursor<T>);

/// An entry of an archive: its name, or why it cannot be opened, and its bytes, or why they
/// cannot be read.
pub struct ZipEntryView {
    pub name: Result<Seq<char>, Seq<char>>,
    pub bytes: Result<Seq<u8>, Seq<char>>,
}

/// The entries that an archive holds, in their order.
pub uninterp spec fn zip_entries(archive: zip::ZipArchive<std::io::Cursor<&[u8]>>) -> Seq<
    ZipEntryView,
>;

/// The entries of the archive that the bytes are, or why they are none.
pub uninterp spec fn zip_contents(bytes: Seq<u8>) -> Result<Seq<ZipEntryView>, Seq<char>>;

/// What an archive, or the error in its place, says.
spec fn opened(r: Result<zip::ZipArchive<std::io::Cursor<&[u8]>>, String>) -> Result<
    Seq<ZipEntryView>,
    Seq<char>,
> {
    match r {
        Ok(a) => Ok(zip_entries(a)),
        Err(e) => Err(e@),
    }
}

/// What a text, or the error in its place, says.
spec fn text_result(r: Result<String, String>) -> Result<Seq<char>, Seq<char>> {
    match r {
        Ok(t) => Ok(t@),
        Err(e) => Err(e@),
    }
}

/// What bytes, or the error in their place, say.
spec fn bytes_result(r: Result<Vec<u8>, String>) -> Result<Seq<u8>, Seq<char>> {
    match r {
        Ok(b) => Ok(b@),
        Err(e) => Err(e@),
    }
}

/// `zip::ZipArchive::new` over the bytes: the archive, or the text of the error. What it holds is
/// named by `zip_contents`.
#[verifier::external_body]
fn zip_open(bytes: &[u8]) -> (r: Result<zip::ZipArchive<std::io::Cursor<&[u8]>>, String>)
    ensures
        opened(r) == zip_contents(bytes@),
{
    zip::ZipArchive::new(std::io::Cursor::new(bytes)).map_err(|e| e.to_string())
}

/// `zip::ZipArchive::len`: the number of entries.
#[verifier::external_body]
fn zip_len(archive: &zip::ZipArchive<std::io::Cursor<&[u8]>>) -> (n: usize)
    ensures
        n == zip_entries(*archive).len(),
{
    archive.len()
}

/// `zip::ZipArchive::by_index`, then `name` of the entry: the name of entry `i`, or the text of
/// the error. The archive holds what it held.
#[verifier::external_body]
fn zip_name(archive: &mut zip::ZipArchive<std::io::Cursor<&[u8]>>, i: usize) -> (r: Result<
    String,
    String,
>)
    requires
        i < zip_entries(*old(archive)).len(),
    ensures
        zip_entries(*final(archive)) == zip_entries(*old(archive)),
        text_result(r) == zip_entries(*old(archive))[i as int].name,
{
    archive.by_index(i).map(|f| f.name().to_string()).map_err(|e| e.to_string())
}

/// `zip::ZipArchive::by_index`, then `read_to_end` of the entry: the bytes of entry `i`, or the
/// text of the error. The archive holds what it held.
#[verifier::external_body]
fn zip_read(archive: &mut zip::ZipArchive<std::io::Cursor<&[u8]>>, i: usize) -> (r: Result<
    Vec<u8>,
    String,
>)
    requires
        i < zip_entries(*old(archive)).len(),
    ensures
        zip_entries(*final(archive)) == zip_entries(*old(archive)),
        bytes_result(r) == zip_entries(*old(archive))[i as int].bytes,
{
    let mut entry = archive.by_index(i).map_err(|e| e.to_string())?;
    let mut buf = Vec::new();
    std::io::Read::read_to_end(&mut entry, &mut buf).map_err(|e| e.to_string())?;
    Ok(buf)
}

/// `String::from_utf8`: the text that the bytes encode; nothing where they are not UTF-8.
#[verifier::external_body]
fn utf8_text(bytes: Vec<u8>) -> (r: Option<String>)
    ensures
        r is Some <==> vstd::utf8::valid_utf8(bytes@),
        r matches Some(s) ==> s@ == vstd::utf8::decode_utf8(bytes@),
{
    String::from_utf8(bytes).ok()
}

/// Which table an entry of the archive is.
#[derive(PartialEq, Eq, Structural)]
pub enum Table {
    Amount,
    Cost,
    Other,
}

/// The table that an entry is by its name: `amount-*.csv` or `cost-*.csv`.
pub open spec fn table_of(name: Seq<char>) -> Table {
    if !".csv"@.is_suffix_of(name) {
        Table::Other
    } else if "amount-"@.is_prefix_of(name) {
        Table::Amount
    } else if "cost-"@.is_prefix_of(name) {
        Table::Cost
    } else {
        Table::Other
    }
}

/// The table that an entry is by its name.
pub fn table_of_name(name: &str) -> (t: Table)
    ensures
        t == table_of(name@),
{
    if !finishes_with(name, ".csv") {
        Table::Other
    } else if begins_with(name, "amount-") {
        Table::Amount
    } else if begins_with(name, "cost-") {
        Table::Cost
    } else {
        Table::Other
    }
}

/// The text of an entry.
pub open spec fn entry_text(entry: ZipEntryView) -> Result<Seq<char>, ImportErrorView> {
    match entry.bytes {
        Err(e) => Err(ImportErrorView::Zip(e)),
        Ok(b) => if vstd::utf8::valid_utf8(b) {
            Ok(vstd::utf8::decode_utf8(b))
        } else {
            Err(ImportErrorView::Encoding)
        },
    }
}

/// The two tables found so far.
pub struct FoundView {
    pub amount: Option<Seq<char>>,
    pub cost: Option<Seq<char>>,
}

/// What is found with one entry more. Of several entries for a table the first counts, and only
/// that one is read.
pub open spec fn find_step(found: FoundView, entry: ZipEntryView) -> Result<
    FoundView,
    ImportErrorView,
> {
    match entry.name {
        Err(e) => Err(ImportErrorView::Zip(e)),
        Ok(name) => if table_of(name) == Table::Amount && found.amount is None {
            match entry_text(entry) {
                Err(e) => Err(e),
                Ok(text) => Ok(FoundView { amount: Some(text), cost: found.cost }),
            }
        } else if table_of(name) == Table::Cost && found.cost is None {
            match entry_text(entry) {
                Err(e) => Err(e),
                Ok(text) => Ok(FoundView { amount: found.amount, cost: Some(text) }),
            }
        } else {
            Ok(found)
        },
    }
}

/// The two tables found among the entries. The first error ends the search.
pub open spec fn find_tables(entries: Seq<ZipEntryView>) -> Result<FoundView, ImportErrorView>
    decreases entries.len(),
{
    if entries.len() == 0 {
        Ok(FoundView { amount: None, cost: None })
    } else {
        match find_tables(entries.drop_last()) {
            Err(e) => Err(e),
            Ok(found) => find_step(found, entries.last()),
        }
    }
}

proof fn lemma_find_error(entries: Seq<ZipEntryView>, k: int)
    requires
        0 <= k <= entries.len(),
        find_tables(entries.take(k)) is Err,
    ensures
        find_tables(entries) == find_tables(entries.take(k)),
    decreases entries.len() - k,
{
    if k < entries.len() {
        assert(entries.take(k + 1).drop_last() =~= entries.take(k));
        lemma_find_error(entries, k + 1);
    } else {
        assert(entries.take(k) =~= entries);
    }
}

/// Reads an entry as text.
fn read_entry_text(archive: &mut zip::ZipArchive<std::io::Cursor<&[u8]>>, i: usize) -> (r: Result<
    String,
    ImportError,
>)
    requires
        i < zip_entries(*old(archive)).len(),
    ensures
        zip_entries(*final(archive)) == zip_entries(*old(archive)),
        (match r {
            Ok(s) => Ok(s@),
            Err(e) => Err(e@),
        }) == entry_text(zip_entries(*old(archive))[i as int]),
{
    match zip_read(archive, i) {
        Err(e) => Err(ImportError::Zip(e)),
        Ok(bytes) => match utf8_text(bytes) {
            Some(text) => Ok(text),
            None => Err(ImportError::Encoding),
        },
    }
}

/// Finds the two tables in an archive.
fn read_tables(archive: &mut zip::ZipArchive<std::io::Cursor<&[u8]>>) -> (r: Result<
    (Option<String>, Option<String>),
    ImportError,
>)
    ensures
        (match r {
            Ok(t) => Ok(FoundView { amount: option_text(t.0), cost: option_text(t.1) }),
            Err(e) => Err(e@),
        }) == find_tables(zip_entries(*old(archive))),
{
    let ghost all = zip_entries(*archive);
    let mut amount: Option<String> = None;
    let mut cost: Option<String> = None;
    let len = zip_len(archive);
    let mut i: usize = 0;
    proof {
        assert(all.take(0) =~= Seq::empty());
    }
    while i < len
        invariant
            all == zip_entries(*old(archive)),
            zip_entries(*archive) == all,
            len == all.len(),
            i <= len,
            find_tables(all.take(i as int)) == Ok::<FoundView, ImportErrorView>(
                FoundView { amount: option_text(amount), cost: option_text(cost) },
            ),
        decreases len - i,
    {
        proof {
            assert(all.take(i + 1).drop_last() =~= all.take(i as int));
            assert(all.take(i + 1).last() == all[i as int]);
        }
        let name = match zip_name(archive, i) {
            Ok(name) => name,
            Err(e) => {
                proof {
                    lemma_find_error(all, i + 1);
                }
                return Err(ImportError::Zip(e));
            },
        };
        let table = table_of_name(name.as_str());
        if table == Table::Amount && amount.is_none() {
            match read_entry_text(archive, i) {
                Ok(text) => {
                    amount = Some(text);
                },
                Err(e) => {
                    proof {
                        lemma_find_error(all, i + 1);
                    }
                    return Err(e);
                },
            }
        } else if table == Table::Cost && cost.is_none() {
            match read_entry_text(archive, i) {
                Ok(text) => {
                    cost = Some(text);
                },
                Err(e) => {
                    proof {
                        lemma_find_error(all, i + 1);
                    }
                    return Err(e);
                },
            }
        }
        i = i + 1;
    }
    proof {
        assert(all.take(i as int) =~= all);
    }
    Ok((amount, cost))
}

/// What the two tables say. A missing table is reported before anything is read, the amount table
/// before the cost table.
pub open spec fn both_tables(found: FoundView, tz: int) -> Result<
    (Seq<AmountView>, Seq<CostView>),
    ImportErrorView,
> {
    match (found.amount, found.cost) {
        (None, _) => Err(ImportErrorView::MissingCsv("amount-*.csv"@)),
        (Some(_), None) => Err(ImportErrorView::MissingCsv("cost-*.csv"@)),
        (Some(a), Some(c)) => match amount_table(a, tz) {
            Err(e) => Err(e),
            Ok(amounts) => match cost_table(c, tz) {
                Err(e) => Err(e),
                Ok(costs) => Ok((amounts, costs)),
            },
        },
    }
}

/// What the tables of an export say.
pub open spec fn export_tables(bytes: Seq<u8>, tz: int) -> Result<
    (Seq<AmountView>, Seq<CostView>),
    ImportErrorView,
> {
    match zip_contents(bytes) {
        Err(e) => Err(ImportErrorView::Zip(e)),
        Ok(entries) => match find_tables(entries) {
            Err(e) => Err(e),
            Ok(found) => both_tables(found, tz),
        },
    }
}

/// What comes of adding up the tables: nothing where a total exceeds 64 bits, an error where
/// there is no row.
pub open spec fn import_outcome(
    tables: Result<(Seq<AmountView>, Seq<CostView>), ImportErrorView>,
    r: Result<Option<Vec<UsageTotals>>, ImportError>,
) -> bool {
    match tables {
        Err(e) => r matches Err(x) && x@ == e,
        Ok((amounts, costs)) => if !totals_fit(amounts) {
            r matches Ok(None)
        } else if amounts.len() == 0 && costs.len() == 0 {
            r matches Err(x) && x@ == ImportErrorView::EmptyData
        } else {
            r matches Ok(Some(list)) && is_aggregate(totals_views(list@), amounts, costs)
        },
    }
}

/// Adds up the two tables of an export.
pub fn import_tables(
    amount_text: Option<String>,
    cost_text: Option<String>,
    tz_offset_min: i32,
) -> (r: Result<Option<Vec<UsageTotals>>, ImportError>)
    ensures
        import_outcome(
            both_tables(
                FoundView { amount: option_text(amount_text), cost: option_text(cost_text) },
                tz_offset_min as int,
            ),
            r,
        ),
{
    let amount_text = match amount_text {
        Some(t) => t,
        None => return Err(ImportError::MissingCsv("amount-*.csv")),
    };
    let cost_text = match cost_text {
        Some(t) => t,
        None => return Err(ImportError::MissingCsv("cost-*.csv")),
    };
    let amount_rows = match parse_amount_csv(amount_text.as_str(), tz_offset_min) {
        Ok(v) => v,
        Err(e) => return Err(e),
    };
    let cost_rows = match parse_cost_csv(cost_text.as_str(), tz_offset_min) {
        Ok(v) => v,
        Err(e) => return Err(e),
    };
    proof {
        law_amounts_have_known_types(amount_text@, tz_offset_min as int);
    }
    let ghost amounts = amount_views(amount_rows@);
    let ghost costs = cost_views(cost_rows@);
    match aggregate(amount_rows, cost_rows) {
        None => Ok(None),
        Some(list) => {
            proof {
                let views = totals_views(list@);
                if amounts.len() > 0 {
                    assert(is_named(amounts, costs, (amounts[0].date, amounts[0].model)));
                }
                if costs.len() > 0 {
                    assert(is_named(amounts, costs, (costs[0].date, costs[0].model)));
                }
                if views.len() > 0 {
                    assert(is_named(amounts, costs, views[0].key()));
                }
            }
            if list.is_empty() {
                Err(ImportError::EmptyData)
            } else {
                Ok(Some(list))
            }
        },
    }
}

/// Reads a usage export and adds it up by date and model. `Ok(None)` comes back where a total
/// exceeds 64 bits.
pub fn import_zip_bytes(bytes: &[u8], tz_offset_min: i32) -> (r: Result<
    Option<Vec<UsageTotals>>,
    ImportError,
>)
    ensures
        import_outcome(export_tables(bytes@, tz_offset_min as int), r),
{
    let mut archive = match zip_open(bytes) {
        Ok(a) => a,
        Err(e) => return Err(ImportError::Zip(e)),
    };
    match read_tables(&mut archive) {
        Err(e) => Err(e),
        Ok((amount_text, cost_text)) => import_tables(amount_text, cost_text, tz_offset_min),
    }
}

/// Usage rows with their dates.
pub open spec fn dated_views<M>(rows: Seq<(String, DayModelUsage<M>)>) -> Seq<
    (Seq<char>, UsageView<M>),
> {
    rows.map_values(|r: (String, DayModelUsage<M>)| (r.0@, r.1@))
}

/// The usage with the rows put under their dates, one behind the other.
pub open spec fn put_rows<M>(
    days: DayMap<M>,
    rows: Seq<(Seq<char>, UsageView<M>)>,
) -> DayMap<M>
    decreases rows.len(),
{
    if rows.len() == 0 {
        days
    } else {
        put_row(put_rows(days, rows.drop_last()), rows.last().0, rows.last().1)
    }
}

/// How many of the rows took the place of one for the same date and model.
pub open spec fn replaced_count<M>(
    days: DayMap<M>,
    rows: Seq<(Seq<char>, UsageView<M>)>,
) -> nat
    decreases rows.len(),
{
    if rows.len() == 0 {
        0
    } else {
        let r = rows.last();
        let before = put_rows(days, rows.drop_last());
        replaced_count(days, rows.drop_last()) + if has_model(rows_of(before, r.0), r.1.model) {
            1nat
        } else {
            0nat
        }
    }
}

/// The dates of the rows.
pub open spec fn row_dates<M>(rows: Seq<(Seq<char>, UsageView<M>)>) -> Set<Seq<char>> {
    rows.map_values(|r: (Seq<char>, UsageView<M>)| r.0).to_set()
}

/// The models of the rows.
pub open spec fn row_models<M>(rows: Seq<(Seq<char>, UsageView<M>)>) -> Set<Seq<char>> {
    rows.map_values(|r: (Seq<char>, UsageView<M>)| r.1.model).to_set()
}

/// A list of texts, each once.
spec fn is_listing(list: Seq<Seq<char>>, set: Set<Seq<char>>) -> bool {
    list.no_duplicates() && list.to_set() == set
}

/// Adds a text to a list of texts, each once.
fn note_text(list: &mut Vec<String>, text: &str)
    requires
        texts(old(list)@).no_duplicates(),
    ensures
        texts(final(list)@).no_duplicates(),
        texts(final(list)@).to_set() == texts(old(list)@).to_set().insert(text@),
{
    let ghost before = texts(list@);
    let mut i: usize = 0;
    while i < list.len()
        invariant
            list@ == old(list)@,
            before == texts(old(list)@),
            before.no_duplicates(),
            i <= list@.len(),
            forall|j: int| 0 <= j < i ==> #[trigger] before[j] != text@,
        decreases list@.len() - i,
    {
        proof {
            assert(before[i as int] == list@[i as int]@);
        }
        if text_eq(list[i].as_str(), text) {
            proof {
                assert(before.to_set().contains(text@));
                assert(before.to_set().insert(text@) =~= before.to_set());
            }
            return;
        }
        i = i + 1;
    }
    let added = text.to_owned();
    proof {
        let after = before.push(text@);
        assert(texts(list@.push(added)) =~= after);
        lemma_set_push(before, text@);
    }
    list.push(added);
}

proof fn lemma_set_push(list: Seq<Seq<char>>, x: Seq<char>)
    ensures
        list.push(x).to_set() == list.to_set().insert(x),
{
    let after = list.push(x);
    assert forall|y: Seq<char>| after.to_set().contains(y) <==> list.to_set().insert(x).contains(
        y,
    ) by {
        if list.contains(y) {
            let k = choose|k: int| 0 <= k < list.len() && list[k] == y;
            assert(after[k] == y);
        }
        if y == x {
            assert(after[list.len() as int] == y);
        }
        if after.contains(y) {
            let k = choose|k: int| 0 <= k < after.len() && after[k] == y;
            if k < list.len() {
                assert(list[k] == y);
            }
        }
    }
    assert(after.to_set() =~= list.to_set().insert(x));
}

/// Puts imported rows into the data. Gives the number of dates, the number of models, and the
/// number of rows that took the place of one for the same date and model.
pub fn apply_usage<M: Copy>(
    data: &mut DataFile<M>,
    rows: Vec<(String, DayModelUsage<M>)>,
) -> (counts: (usize, usize, usize))
    requires
        old(data).wf(),
    ensures
        final(data).wf(),
        final(data).usage() == put_rows(old(data).usage(), dated_views(rows@)),
        counts.0 == row_dates(dated_views(rows@)).len(),
        counts.1 == row_models(dated_views(rows@)).len(),
        counts.2 == replaced_count(old(data).usage(), dated_views(rows@)),
        final(data).balance == old(data).balance,
        final(data).last_import_at == old(data).last_import_at,
{
    let ghost all = dated_views(rows@);
    let ghost days0 = data.usage();
    let ghost dates = all.map_values(|r: (Seq<char>, UsageView<M>)| r.0);
    let ghost models = all.map_values(|r: (Seq<char>, UsageView<M>)| r.1.model);
    let mut seen_dates: Vec<String> = Vec::new();
    let mut seen_models: Vec<String> = Vec::new();
    let mut replaced: usize = 0;
    let mut i: usize = 0;
    proof {
        assert(all.take(0) =~= Seq::empty());
        assert(dates.take(0).to_set() =~= texts(seen_dates@).to_set());
        assert(models.take(0).to_set() =~= texts(seen_models@).to_set());
    }
    while i < rows.len()
        invariant
            old(data).wf(),
            data.wf(),
            all == dated_views(rows@),
            days0 == old(data).usage(),
            dates == all.map_values(|r: (Seq<char>, UsageView<M>)| r.0),
            models == all.map_values(|r: (Seq<char>, UsageView<M>)| r.1.model),
            i <= rows@.len(),
            replaced <= i,
            data.usage() == put_rows(days0, all.take(i as int)),
            replaced == replaced_count(days0, all.take(i as int)),
            is_listing(texts(seen_dates@), dates.take(i as int).to_set()),
            is_listing(texts(seen_models@), models.take(i as int).to_set()),
            data.balance == old(data).balance,
            data.last_import_at == old(data).last_import_at,
        decreases rows@.len() - i,
    {
        let row = &rows[i].1;
        let date = rows[i].0.as_str();
        proof {
            assert(all.take(i + 1).drop_last() =~= all.take(i as int));
            assert(all.take(i + 1).last() == all[i as int]);
            assert(all[i as int] == (date@, row@));
            assert(dates.take(i + 1) =~= dates.take(i as int).push(date@));
            assert(models.take(i + 1) =~= models.take(i as int).push(row.model@));
            lemma_set_push(dates.take(i as int), date@);
            lemma_set_push(models.take(i as int), row.model@);
        }
        note_text(&mut seen_dates, date);
        note_text(&mut seen_models, row.model.as_str());
        let copy = DayModelUsage {
            model: row.model.clone(),
            calls: row.calls,
            hit_tokens: row.hit_tokens,
            miss_tokens: row.miss_tokens,
            output_tokens: row.output_tokens,
            cost: row.cost,
        };
        if data.upsert_daily(date, copy) {
            replaced = replaced + 1;
        }
        i = i + 1;
    }
    proof {
        assert(all.take(i as int) =~= all);
        assert(dates.take(i as int) =~= dates);
        assert(models.take(i as int) =~= models);
        texts(seen_dates@).unique_seq_to_set();
        texts(seen_models@).unique_seq_to_set();
    }
    (seen_dates.len(), seen_models.len(), replaced)
}

/// Whether the row stands in the place of its model among the rows.
spec fn row_stands<M>(rows: Seq<UsageView<M>>, row: UsageView<M>) -> bool {
    has_model(rows, row.model) && upsert_rows(rows, row) == rows
}

proof fn lemma_upsert_stands<M>(rows: Seq<UsageView<M>>, row: UsageView<M>)
    ensures
        row_stands(upsert_rows(rows, row), row),
    decreases rows.len(),
{
    let after = upsert_rows(rows, row);
    if rows.len() == 0 {
        assert(after[0] == row);
        assert(after.update(0, row) =~= after);
    } else if rows[0].model == row.model {
        assert(after[0] == row);
        assert(after.update(0, row) =~= after);
    } else {
        let rest = upsert_rows(rows.skip(1), row);
        lemma_upsert_stands(rows.skip(1), row);
        assert(after == seq![rows[0]] + rest);
        assert(after.skip(1) =~= rest);
        assert(after[0] == rows[0]);
        let k = choose|k: int| 0 <= k < rest.len() && (#[trigger] rest[k]).model == row.model;
        assert(after[k + 1] == rest[k]);
    }
}

proof fn lemma_upsert_keeps<M>(rows: Seq<UsageView<M>>, row: UsageView<M>, other: UsageView<M>)
    requires
        row_stands(rows, row),
        other.model != row.model,
    ensures
        row_stands(upsert_rows(rows, other), row),
    decreases rows.len(),
{
    let after = upsert_rows(rows, other);
    let k = choose|k: int| 0 <= k < rows.len() && (#[trigger] rows[k]).model == row.model;
    if rows[0].model == row.model {
        assert(rows.update(0, row) == rows);
        assert(rows[0] == row);
        assert(after == seq![rows[0]] + upsert_rows(rows.skip(1), other));
        assert(after[0] == row);
        assert(after.update(0, row) =~= after);
    } else {
        let rest = rows.skip(1);
        assert(rest[k - 1] == rows[k]);
        assert(upsert_rows(rows, row) == seq![rows[0]] + upsert_rows(rest, row));
        assert(upsert_rows(rest, row) =~= upsert_rows(rows, row).skip(1));
        assert(row_stands(rest, row));
        if rows[0].model == other.model {
            assert(after[0] == other);
            assert(after.skip(1) =~= rest);
            assert(seq![other] + upsert_rows(rest, row) =~= after);
            assert(after[k] == rows[k]);
        } else {
            lemma_upsert_keeps(rest, row, other);
            let tail = upsert_rows(rest, other);
            assert(after == seq![rows[0]] + tail);
            assert(after[0] == rows[0]);
            assert(after.skip(1) =~= tail);
            let j = choose|j: int| 0 <= j < tail.len() && (#[trigger] tail[j]).model == row.model;
            assert(after[j + 1] == tail[j]);
        }
    }
}

/// Whether the row stands under its date.
spec fn row_held<M>(days: DayMap<M>, row: (Seq<char>, UsageView<M>)) -> bool {
    days.dom().contains(row.0) && row_stands(days[row.0], row.1)
}

/// Whether no two rows are for the same date and model.
pub open spec fn rows_distinct<M>(rows: Seq<(Seq<char>, UsageView<M>)>) -> bool {
    forall|i: int, j: int|
        0 <= i < j < rows.len() ==> ((#[trigger] rows[i]).0, rows[i].1.model) != ((
        #[trigger] rows[j]).0, rows[j].1.model)
}

proof fn lemma_put_holds<M>(days: DayMap<M>, rows: Seq<(Seq<char>, UsageView<M>)>, k: int)
    requires
        rows_distinct(rows),
        0 <= k < rows.len(),
    ensures
        row_held(put_rows(days, rows), rows[k]),
    decreases rows.len(),
{
    let front = rows.drop_last();
    let r = rows.last();
    let before = put_rows(days, front);
    if k == rows.len() - 1 {
        lemma_upsert_stands(rows_of(before, r.0), r.1);
    } else {
        assert forall|i: int, j: int| 0 <= i < j < front.len() implies ((#[trigger] front[i]).0,
        front[i].1.model) != ((#[trigger] front[j]).0, front[j].1.model) by {
            assert(front[i] == rows[i] && front[j] == rows[j]);
        }
        assert(front[k] == rows[k]);
        lemma_put_holds(days, front, k);
        assert((rows[k].0, rows[k].1.model) != (rows[rows.len() - 1].0, rows[rows.len()
            - 1].1.model));
        if rows[k].0 == r.0 {
            lemma_upsert_keeps(before[r.0], rows[k].1, r.1);
        }
    }
}

proof fn lemma_put_again<M>(days: DayMap<M>, rows: Seq<(Seq<char>, UsageView<M>)>)
    requires
        forall|k: int| 0 <= k < rows.len() ==> row_held(days, #[trigger] rows[k]),
    ensures
        put_rows(days, rows) == days,
        replaced_count(days, rows) == rows.len(),
    decreases rows.len(),
{
    if rows.len() > 0 {
        let front = rows.drop_last();
        assert forall|k: int| 0 <= k < front.len() implies row_held(days, #[trigger] front[k]) by {
            assert(front[k] == rows[k]);
        }
        lemma_put_again(days, front);
        let r = rows.last();
        assert(rows[rows.len() - 1] == r);
        assert(row_held(days, r));
        assert(put_row(days, r.0, r.1) =~= days);
    }
}

/// Importing the same rows again changes nothing, and every row is counted as replaced.
pub proof fn law_reimport_changes_nothing<M>(
    days: DayMap<M>,
    rows: Seq<(Seq<char>, UsageView<M>)>,
)
    requires
        rows_distinct(rows),
    ensures
        put_rows(put_rows(days, rows), rows) == put_rows(days, rows),
        replaced_count(put_rows(days, rows), rows) == rows.len(),
{
    let once = put_rows(days, rows);
    assert forall|k: int| 0 <= k < rows.len() implies row_held(once, #[trigger] rows[k]) by {
        lemma_put_holds(days, rows, k);
    }
    lemma_put_again(once, rows);
}

/// Dates that no imported row is for keep their usage.
pub proof fn law_import_leaves_other_dates<M>(
    days: DayMap<M>,
    rows: Seq<(Seq<char>, UsageView<M>)>,
    date: Seq<char>,
)
    requires
        forall|k: int| 0 <= k < rows.len() ==> (#[trigger] rows[k]).0 != date,
    ensures
        put_rows(days, rows).dom().contains(date) <==> days.dom().contains(date),
        rows_of(put_rows(days, rows), date) == rows_of(days, date),
    decreases rows.len(),
{
    if rows.len() > 0 {
        let front = rows.drop_last();
        assert forall|k: int| 0 <= k < front.len() implies (#[trigger] front[k]).0 != date by {
            assert(front[k] == rows[k]);
        }
        assert(rows[rows.len() - 1].0 != date);
        law_import_leaves_other_dates(days, front, date);
    }
}

/// The row that an import puts under a date for a model is what the usage then holds for them.
pub proof fn law_imported_row_is_held<M>(
    days: DayMap<M>,
    rows: Seq<(Seq<char>, UsageView<M>)>,
    k: int,
)
    requires
        rows_distinct(rows),
        0 <= k < rows.len(),
    ensures
        put_rows(days, rows).dom().contains(rows[k].0),
        has_model(put_rows(days, rows)[rows[k].0], rows[k].1.model),
        put_rows(days, rows)[rows[k].0].contains(rows[k].1),
{
    lemma_put_holds(days, rows, k);
    lemma_stands_contains(put_rows(days, rows)[rows[k].0], rows[k].1);
}

proof fn lemma_stands_contains<M>(rows: Seq<UsageView<M>>, row: UsageView<M>)
    requires
        row_stands(rows, row),
    ensures
        rows.contains(row),
    decreases rows.len(),
{
    let k = choose|k: int| 0 <= k < rows.len() && (#[trigger] rows[k]).model == row.model;
    if rows[0].model == row.model {
        assert(rows.update(0, row)[0] == row);
    } else {
        let rest = rows.skip(1);
        assert(rest[k - 1] == rows[k]);
        assert(upsert_rows(rest, row) =~= upsert_rows(rows, row).skip(1));
        lemma_stands_contains(rest, row);
        let j = choose|j: int| 0 <= j < rest.len() && rest[j] == row;
        assert(rows[j + 1] == row);
    }
}

/// The rows that totals make once their costs are added up: each with its date.
pub open spec fn priced_views<M>(list: Seq<TotalsView>, costs: Seq<M>) -> Seq<
    (Seq<char>, UsageView<M>),
> {
    Seq::new(
        list.len(),
        |i: int|
            (
                list[i].date,
                UsageView {
                    model: list[i].model,
                    calls: list[i].calls as u64,
                    hit_tokens: list[i].hit_tokens as u64,
                    miss_tokens: list[i].miss_tokens as u64,
                    output_tokens: list[i].output_tokens as u64,
                    cost: costs[i],
                },
            ),
    )
}

/// The rows that totals make with the cost of each.
pub fn priced_rows<M: Copy>(list: &Vec<UsageTotals>, costs: &Vec<M>) -> (rows: Vec<
    (String, DayModelUsage<M>),
>)
    requires
        list@.len() == costs@.len(),
    ensures
        dated_views(rows@) == priced_views(totals_views(list@), costs@),
{
    let mut rows: Vec<(String, DayModelUsage<M>)> = Vec::new();
    let ghost want = priced_views(totals_views(list@), costs@);
    let mut i: usize = 0;
    while i < list.len()
        invariant
            list@.len() == costs@.len(),
            want == priced_views(totals_views(list@), costs@),
            i <= list@.len(),
            rows@.len() == i,
            forall|j: int| 0 <= j < i ==> ((#[trigger] rows@[j]).0@, rows@[j].1@) == want[j],
        decreases list@.len() - i,
    {
        let t = &list[i];
        rows.push(
            (
                t.date.clone(),
                DayModelUsage {
                    model: t.model.clone(),
                    calls: t.calls,
                    hit_tokens: t.hit_tokens,
                    miss_tokens: t.miss_tokens,
                    output_tokens: t.output_tokens,
                    cost: costs[i],
                },
            ),
        );
        i = i + 1;
    }
    proof {
        assert(dated_views(rows@) =~= want);
    }
    rows
}

/// What the tables add up to makes at most one row for a date and model, so an import of it may
/// be repeated.
pub proof fn law_totals_make_distinct_rows<M>(list: Seq<TotalsView>, costs: Seq<M>)
    requires
        totals_sorted(list),
    ensures
        rows_distinct(priced_views(list, costs)),
{
    let rows = priced_views(list, costs);
    assert forall|i: int, j: int| 0 <= i < j < rows.len() implies ((#[trigger] rows[i]).0,
    rows[i].1.model) != ((#[trigger] rows[j]).0, rows[j].1.model) by {
        assert(pair_less(list[i].key(), list[j].key()));
        lemma_pair_order(list[i].key(), list[j].key(), list[j].key());
    }
}

} // verus!
