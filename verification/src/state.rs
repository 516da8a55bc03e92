//! What the plugin remembers: settings, usage by day and model, and what was last pushed.
//!
//! `M` is the type of an amount of money. The library carries amounts and never computes with
//! them.
use vstd::prelude::*;
use vstd::string::*;

use crate::order::{lemma_text_irreflexive, lemma_text_transitive, rank, text_less, Rank};
use crate::text::text_eq;

verus! {

/// The user's settings. Intervals are in seconds; an export interval of 0 turns the automatic
/// export off.
#[derive(Debug, Clone, PartialEq, Eq)]
pub struct Settings {
    pub api_key: String,
    pub platform_token: String,
    pub base_url: String,
    pub platform_base: String,
    pub provider: String,
    pub push_pkg: String,
    pub push_interval_secs: u64,
    pub balance_interval_secs: u64,
    pub export_interval_secs: u64,
}

/// The account's balance as the platform reported it.
#[derive(Debug, Clone, PartialEq)]
pub struct BalanceInfo<M> {
    pub total: M,
    pub top_up: Option<M>,
    pub granted: Option<M>,
    pub currency: String,
    /// Unix seconds of the report.
    pub checked_at: i64,
}

/// The usage of one model on one day.
#[derive(Debug, Clone, PartialEq)]
pub struct DayModelUsage<M> {
    pub model: String,
    pub calls: u64,
    pub hit_tokens: u64,
    pub miss_tokens: u64,
    pub output_tokens: u64,
    pub cost: M,
}

/// The usage of one day, a row for each model.
#[derive(Debug, Clone, PartialEq)]
pub struct DayUsage<M> {
    pub date: String,
    pub rows: Vec<DayModelUsage<M>>,
}

/// The stored data. The days stand in the order of their dates, each once.
#[derive(Debug, Clone, PartialEq)]
pub struct DataFile<M> {
    pub days: Vec<DayUsage<M>>,
    pub balance: Option<BalanceInfo<M>>,
    pub last_import_at: Option<i64>,
}

/// The connected device, and whether its messages are being received.
#[derive(Debug, Clone, PartialEq, Eq)]
pub struct DeviceLink {
    pub addr: Option<String>,
    pub recv_registered: bool,
}

/// The last push that succeeded: when, what, and to which device.
#[derive(Debug, Clone, PartialEq, Eq)]
pub struct PushRecord {
    pub at: Option<i64>,
    pub signature: Option<String>,
    pub device: Option<String>,
}

/// Everything that the plugin holds while it runs.
#[derive(Debug, Clone, PartialEq)]
pub struct AppState<M> {
    pub settings: Settings,
    pub data: DataFile<M>,
    pub link: DeviceLink,
    pub pushed: PushRecord,
    pub last_interconnect_at: Option<i64>,
    pub tz_offset_min: i32,
}

/// What the settings say.
pub struct SettingsView {
    pub api_key: Seq<char>,
    pub platform_token: Seq<char>,
    pub base_url: Seq<char>,
    pub platform_base: Seq<char>,
    pub provider: Seq<char>,
    pub push_pkg: Seq<char>,
    pub push_interval_secs: u64,
    pub balance_interval_secs: u64,
    pub export_interval_secs: u64,
}

impl View for Settings {
    type V = SettingsView;

    open spec fn view(&self) -> SettingsView {
        SettingsView {
            api_key: self.api_key@,
            platform_token: self.platform_token@,
            base_url: self.base_url@,
            platform_base: self.platform_base@,
            provider: self.provider@,
            push_pkg: self.push_pkg@,
            push_interval_secs: self.push_interval_secs,
            balance_interval_secs: self.balance_interval_secs,
            export_interval_secs: self.export_interval_secs,
        }
    }
}

/// What a balance says.
pub struct BalanceView<M> {
    pub total: M,
    pub top_up: Option<M>,
    pub granted: Option<M>,
    pub currency: Seq<char>,
    pub checked_at: i64,
}

impl<M> View for BalanceInfo<M> {
    type V = BalanceView<M>;

    open spec fn view(&self) -> BalanceView<M> {
        BalanceView {
            total: self.total,
            top_up: self.top_up,
            granted: self.granted,
            currency: self.currency@,
            checked_at: self.checked_at,
        }
    }
}

/// What an optional balance says.
pub open spec fn option_balance<M>(b: Option<BalanceInfo<M>>) -> Option<BalanceView<M>> {
    match b {
        Some(b) => Some(b@),
        None => None,
    }
}

/// What the usage of one model says.
pub struct UsageView<M> {
    pub model: Seq<char>,
    pub calls: u64,
    pub hit_tokens: u64,
    pub miss_tokens: u64,
    pub output_tokens: u64,
    pub cost: M,
}

impl<M> View for DayModelUsage<M> {
    type V = UsageView<M>;

    open spec fn view(&self) -> UsageView<M> {
        UsageView {
            model: self.model@,
            calls: self.calls,
            hit_tokens: self.hit_tokens,
            miss_tokens: self.miss_tokens,
            output_tokens: self.output_tokens,
            cost: self.cost,
        }
    }
}

/// What the rows of a day say.
pub open spec fn usage_views<M>(rows: Seq<DayModelUsage<M>>) -> Seq<UsageView<M>> {
    rows.map_values(|r: DayModelUsage<M>| r@)
}

/// Whether the rows hold one for the model.
pub open spec fn has_model<M>(rows: Seq<UsageView<M>>, model: Seq<char>) -> bool {
    exists|i: int| 0 <= i < rows.len() && (#[trigger] rows[i]).model == model
}

/// The rows with `row` in the place of the first one for its model, or behind all of them where
/// there is none.
pub open spec fn upsert_rows<M>(rows: Seq<UsageView<M>>, row: UsageView<M>) -> Seq<UsageView<M>>
    decreases rows.len(),
{
    if rows.len() == 0 {
        seq![row]
    } else if rows[0].model == row.model {
        rows.update(0, row)
    } else {
        seq![rows[0]] + upsert_rows(rows.skip(1), row)
    }
}

/// Usage by date.
pub type DayMap<M> = Map<Seq<char>, Seq<UsageView<M>>>;

/// The rows of a date; none where the date is not there.
pub open spec fn rows_of<M>(days: DayMap<M>, date: Seq<char>) -> Seq<UsageView<M>> {
    if days.dom().contains(date) {
        days[date]
    } else {
        Seq::empty()
    }
}

/// Whether the days stand in the order of their dates, each once.
pub open spec fn days_sorted<M>(days: Seq<DayUsage<M>>) -> bool {
    forall|i: int, j: int|
        0 <= i < j < days.len() ==> text_less((#[trigger] days[i]).date@, (
        #[trigger] days[j]).date@)
}

/// The place of a date among the days.
pub open spec fn day_at<M>(days: Seq<DayUsage<M>>, date: Seq<char>, i: int) -> bool {
    0 <= i < days.len() && days[i].date@ == date
}

/// The days as a map from date to rows.
pub open spec fn day_map<M>(days: Seq<DayUsage<M>>) -> DayMap<M> {
    Map::new(
        |date: Seq<char>| exists|i: int| day_at(days, date, i),
        |date: Seq<char>| usage_views(days[choose|i: int| day_at(days, date, i)].rows@),
    )
}

impl<M> DataFile<M> {
    /// The invariant: the days stand in the order of their dates, each once.
    pub open spec fn wf(self) -> bool {
        days_sorted(self.days@)
    }

    /// The usage by date.
    pub open spec fn usage(self) -> DayMap<M> {
        day_map(self.days@)
    }
}

/// The map holds, under the date of each day, that day's rows.
pub proof fn lemma_day_map<M>(days: Seq<DayUsage<M>>, i: int)
    requires
        days_sorted(days),
        0 <= i < days.len(),
    ensures
        day_map(days).dom().contains(days[i].date@),
        day_map(days)[days[i].date@] == usage_views(days[i].rows@),
{
    let date = days[i].date@;
    assert(day_at(days, date, i));
    let k = choose|k: int| day_at(days, date, k);
    assert(day_at(days, date, k));
    lemma_text_irreflexive(date);
    if k < i {
        assert(text_less(days[k].date@, days[i].date@));
    } else if i < k {
        assert(text_less(days[i].date@, days[k].date@));
    }
}

proof fn lemma_upsert_found<M>(rows: Seq<UsageView<M>>, row: UsageView<M>, k: int)
    requires
        0 <= k < rows.len(),
        rows[k].model == row.model,
        forall|j: int| 0 <= j < k ==> (#[trigger] rows[j]).model != row.model,
    ensures
        upsert_rows(rows, row) == rows.update(k, row),
    decreases k,
{
    if k > 0 {
        assert(rows[0].model != row.model);
        let rest = rows.skip(1);
        assert forall|j: int| 0 <= j < k - 1 implies (#[trigger] rest[j]).model != row.model by {
            assert(rest[j] == rows[j + 1]);
        }
        lemma_upsert_found(rest, row, k - 1);
        assert(seq![rows[0]] + rest.update(k - 1, row) =~= rows.update(k, row));
    }
}

proof fn lemma_upsert_new<M>(rows: Seq<UsageView<M>>, row: UsageView<M>)
    requires
        !has_model(rows, row.model),
    ensures
        upsert_rows(rows, row) == rows.push(row),
    decreases rows.len(),
{
    if rows.len() == 0 {
        assert(seq![row] =~= rows.push(row));
    } else {
        assert(rows[0].model != row.model);
        let rest = rows.skip(1);
        assert forall|j: int| 0 <= j < rest.len() implies (#[trigger] rest[j]).model
            != row.model by {
            assert(rest[j] == rows[j + 1]);
        }
        lemma_upsert_new(rest, row);
        assert(seq![rows[0]] + rest.push(row) =~= rows.push(row));
    }
}

/// Puts a row into the rows of a day; says whether it took the place of one for the same model.
fn upsert_row<M>(rows: &mut Vec<DayModelUsage<M>>, row: DayModelUsage<M>) -> (replaced: bool)
    ensures
        usage_views(final(rows)@) == upsert_rows(usage_views(old(rows)@), row@),
        replaced == has_model(usage_views(old(rows)@), row.model@),
{
    let ghost before = usage_views(rows@);
    let mut i: usize = 0;
    while i < rows.len()
        invariant
            i <= rows@.len(),
            rows@ == old(rows)@,
            before == usage_views(old(rows)@),
            forall|j: int| 0 <= j < i ==> (#[trigger] before[j]).model != row.model@,
        decreases rows@.len() - i,
    {
        proof {
            assert(before[i as int].model == rows@[i as int].model@);
        }
        if text_eq(rows[i].model.as_str(), row.model.as_str()) {
            proof {
                lemma_upsert_found(before, row@, i as int);
                assert(usage_views(rows@.update(i as int, row)) =~= before.update(i as int, row@));
            }
            rows.set(i, row);
            return true;
        }
        i = i + 1;
    }
    proof {
        lemma_upsert_new(before, row@);
        assert(usage_views(rows@.push(row)) =~= before.push(row@));
    }
    rows.push(row);
    false
}

/// Where a date stands among the days, or where it would stand.
fn find_day<M>(days: &Vec<DayUsage<M>>, date: &str) -> (r: (usize, bool))
    requires
        days_sorted(days@),
    ensures
        r.0 <= days@.len(),
        forall|j: int| 0 <= j < r.0 ==> text_less((#[trigger] days@[j]).date@, date@),
        r.1 ==> day_at(days@, date@, r.0 as int),
        !r.1 ==> forall|j: int| r.0 <= j < days@.len() ==> text_less(date@, (
        #[trigger] days@[j]).date@),
        r.1 == day_map(days@).dom().contains(date@),
{
    let mut i: usize = 0;
    while i < days.len()
        invariant
            i <= days@.len(),
            days_sorted(days@),
            forall|j: int| 0 <= j < i ==> text_less((#[trigger] days@[j]).date@, date@),
        decreases days@.len() - i,
    {
        match rank(days[i].date.as_str(), date) {
            Rank::Below => {},
            Rank::Same => {
                proof {
                    lemma_day_map(days@, i as int);
                }
                return (i, true);
            },
            Rank::Above => {
                proof {
                    assert forall|j: int| i <= j < days@.len() implies text_less(date@, (
                    #[trigger] days@[j]).date@) by {
                        if j > i {
                            lemma_text_transitive(date@, days@[i as int].date@, days@[j].date@);
                        }
                    }
                    lemma_text_irreflexive(date@);
                    assert(!exists|k: int| day_at(days@, date@, k));
                }
                return (i, false);
            },
        }
        i = i + 1;
    }
    proof {
        lemma_text_irreflexive(date@);
        assert(!exists|k: int| day_at(days@, date@, k));
    }
    (i, false)
}

proof fn lemma_day_map_insert<M>(
    days: Seq<DayUsage<M>>,
    after: Seq<DayUsage<M>>,
    at: int,
    entry: DayUsage<M>,
)
    requires
        days_sorted(days),
        0 <= at <= days.len(),
        forall|j: int| 0 <= j < at ==> text_less((#[trigger] days[j]).date@, entry.date@),
        forall|j: int| at <= j < days.len() ==> text_less(entry.date@, (#[trigger] days[j]).date@),
        after == days.insert(at, entry),
    ensures
        days_sorted(after),
        day_map(after) == day_map(days).insert(entry.date@, usage_views(entry.rows@)),
{
    assert forall|i: int, j: int| 0 <= i < j < after.len() implies text_less(
        (#[trigger] after[i]).date@,
        (#[trigger] after[j]).date@,
    ) by {
        if i < at {
            assert(after[i] == days[i]);
        } else if i > at {
            assert(after[i] == days[i - 1]);
        }
        if j < at {
            assert(after[j] == days[j]);
        } else if j > at {
            assert(after[j] == days[j - 1]);
        }
    }
    let want = day_map(days).insert(entry.date@, usage_views(entry.rows@));
    assert(after[at] == entry);
    lemma_day_map(after, at);
    assert forall|date: Seq<char>| #[trigger]
        day_map(after).dom().contains(date) <==> want.dom().contains(date) by {
        if day_map(after).dom().contains(date) {
            let k = choose|k: int| day_at(after, date, k);
            if k < at {
                assert(day_at(days, date, k));
            } else if k > at {
                assert(day_at(days, date, k - 1));
            }
        }
        if day_map(days).dom().contains(date) {
            let k = choose|k: int| day_at(days, date, k);
            if k < at {
                assert(day_at(after, date, k));
            } else {
                assert(day_at(after, date, k + 1));
            }
        }
        if date == entry.date@ {
            assert(day_at(after, date, at));
        }
    }
    assert forall|date: Seq<char>| #[trigger] day_map(after).dom().contains(date) implies day_map(
        after,
    )[date] == want[date] by {
        let k = choose|k: int| day_at(after, date, k);
        lemma_day_map(after, k);
        lemma_text_irreflexive(date);
        if k < at {
            lemma_day_map(days, k);
        } else if k > at {
            lemma_day_map(days, k - 1);
        }
    }
    assert(day_map(after) =~= want);
}

proof fn lemma_day_map_update<M>(days: Seq<DayUsage<M>>, at: int, entry: DayUsage<M>)
    requires
        days_sorted(days),
        0 <= at < days.len(),
        days[at].date@ == entry.date@,
    ensures
        days_sorted(days.update(at, entry)),
        day_map(days.update(at, entry)) == day_map(days).insert(
            entry.date@,
            usage_views(entry.rows@),
        ),
{
    let after = days.update(at, entry);
    assert forall|i: int, j: int| 0 <= i < j < after.len() implies text_less(
        (#[trigger] after[i]).date@,
        (#[trigger] after[j]).date@,
    ) by {
        assert(after[i].date@ == days[i].date@);
        assert(after[j].date@ == days[j].date@);
    }
    let want = day_map(days).insert(entry.date@, usage_views(entry.rows@));
    lemma_day_map(after, at);
    assert forall|date: Seq<char>| #[trigger]
        day_map(after).dom().contains(date) <==> want.dom().contains(date) by {
        if day_map(after).dom().contains(date) {
            let k = choose|k: int| day_at(after, date, k);
            assert(day_at(days, date, k));
        }
        if day_map(days).dom().contains(date) {
            let k = choose|k: int| day_at(days, date, k);
            assert(day_at(after, date, k));
        }
    }
    assert forall|date: Seq<char>| #[trigger] day_map(after).dom().contains(date) implies day_map(
        after,
    )[date] == want[date] by {
        let k = choose|k: int| day_at(after, date, k);
        lemma_day_map(after, k);
        if k != at {
            lemma_day_map(days, k);
            lemma_text_irreflexive(date);
            if k < at {
                assert(text_less(days[k].date@, days[at].date@));
            } else {
                assert(text_less(days[at].date@, days[k].date@));
            }
        }
    }
    assert(day_map(after) =~= want);
}

/// The usage with a row put under a date.
pub open spec fn put_row<M>(days: DayMap<M>, date: Seq<char>, row: UsageView<M>) -> DayMap<M> {
    days.insert(date, upsert_rows(rows_of(days, date), row))
}

impl<M> DataFile<M> {
    /// Data with nothing in it.
    pub fn new() -> (data: Self)
        ensures
            data.wf(),
            data.usage() == DayMap::<M>::empty(),
            data.days@.len() == 0,
            data.balance is None,
            data.last_import_at is None,
    {
        let data = DataFile { days: Vec::new(), balance: None, last_import_at: None };
        proof {
            assert(data.usage() =~= DayMap::<M>::empty());
        }
        data
    }

    /// The rows of a date.
    pub fn rows(&self, date: &str) -> (r: Option<&Vec<DayModelUsage<M>>>)
        requires
            self.wf(),
        ensures
            r is Some <==> self.usage().dom().contains(date@),
            r matches Some(rows) ==> usage_views(rows@) == self.usage()[date@],
    {
        let (at, found) = find_day(&self.days, date);
        if found {
            proof {
                lemma_day_map(self.days@, at as int);
            }
            Some(&self.days[at].rows)
        } else {
            None
        }
    }

    /// Puts the usage of one model under a date, in the place of what was there for that date
    /// and model. Says whether there was anything.
    pub fn upsert_daily(&mut self, date: &str, row: DayModelUsage<M>) -> (replaced: bool)
        requires
            old(self).wf(),
        ensures
            final(self).wf(),
            final(self).usage() == put_row(old(self).usage(), date@, row@),
            replaced == has_model(rows_of(old(self).usage(), date@), row.model@),
            final(self).balance == old(self).balance,
            final(self).last_import_at == old(self).last_import_at,
    {
        let ghost before = self.days@;
        let (at, found) = find_day(&self.days, date);
        if found {
            proof {
                lemma_day_map(before, at as int);
            }
            let mut entry = self.days.remove(at);
            let replaced = upsert_row(&mut entry.rows, row);
            proof {
                lemma_day_map_update(before, at as int, entry);
                assert(before.remove(at as int).insert(at as int, entry) =~= before.update(
                    at as int,
                    entry,
                ));
            }
            self.days.insert(at, entry);
            replaced
        } else {
            let mut rows: Vec<DayModelUsage<M>> = Vec::new();
            proof {
                assert(usage_views(rows@) =~= Seq::<UsageView<M>>::empty());
            }
            let replaced = upsert_row(&mut rows, row);
            let entry = DayUsage { date: date.to_owned(), rows };
            proof {
                lemma_day_map_insert(before, before.insert(at as int, entry), at as int, entry);
            }
            self.days.insert(at, entry);
            replaced
        }
    }
}

/// What the stored data say, the days in their order.
pub struct DataView<M> {
    pub days: Seq<(Seq<char>, Seq<UsageView<M>>)>,
    pub balance: Option<BalanceView<M>>,
    pub last_import_at: Option<i64>,
}

impl<M> View for DataFile<M> {
    type V = DataView<M>;

    open spec fn view(&self) -> DataView<M> {
        DataView {
            days: self.days@.map_values(|d: DayUsage<M>| (d.date@, usage_views(d.rows@))),
            balance: option_balance(self.balance),
            last_import_at: self.last_import_at,
        }
    }
}

/// Data that say the same keep the invariant alike and hold the same usage.
pub proof fn lemma_same_data<M>(a: DataFile<M>, b: DataFile<M>)
    requires
        a@ == b@,
        a.wf(),
    ensures
        b.wf(),
        a.usage() == b.usage(),
{
    assert(a.days@.len() == a@.days.len());
    assert(b.days@.len() == b@.days.len());
    assert forall|i: int| 0 <= i < a.days@.len() implies (#[trigger] b.days@[i]).date@
        == a.days@[i].date@ && usage_views(b.days@[i].rows@) == usage_views(a.days@[i].rows@) by {
        assert(a@.days[i] == b@.days[i]);
    }
    assert forall|date: Seq<char>| a.usage().dom().contains(date) <==> b.usage().dom().contains(
        date,
    ) by {
        if a.usage().dom().contains(date) {
            let k = choose|k: int| day_at(a.days@, date, k);
            assert(day_at(b.days@, date, k));
        }
        if b.usage().dom().contains(date) {
            let k = choose|k: int| day_at(b.days@, date, k);
            assert(day_at(a.days@, date, k));
        }
    }
    assert forall|date: Seq<char>| a.usage().dom().contains(date) implies a.usage()[date]
        == b.usage()[date] by {
        let k = choose|k: int| day_at(a.days@, date, k);
        lemma_day_map(a.days@, k);
        lemma_day_map(b.days@, k);
    }
    assert(a.usage() =~= b.usage());
}

impl Settings {
    /// A copy of the settings.
    pub fn copy(&self) -> (s: Settings)
        ensures
            s@ == self@,
    {
        Settings {
            api_key: self.api_key.clone(),
            platform_token: self.platform_token.clone(),
            base_url: self.base_url.clone(),
            platform_base: self.platform_base.clone(),
            provider: self.provider.clone(),
            push_pkg: self.push_pkg.clone(),
            push_interval_secs: self.push_interval_secs,
            balance_interval_secs: self.balance_interval_secs,
            export_interval_secs: self.export_interval_secs,
        }
    }
}

/// A copy of an optional balance.
pub fn copy_balance<M: Copy>(b: &Option<BalanceInfo<M>>) -> (r: Option<BalanceInfo<M>>)
    ensures
        option_balance(r) == option_balance(*b),
{
    match b {
        None => None,
        Some(b) => Some(
            BalanceInfo {
                total: b.total,
                top_up: b.top_up,
                granted: b.granted,
                currency: b.currency.clone(),
                checked_at: b.checked_at,
            },
        ),
    }
}

fn copy_rows<M: Copy>(rows: &Vec<DayModelUsage<M>>) -> (r: Vec<DayModelUsage<M>>)
    ensures
        usage_views(r@) == usage_views(rows@),
{
    let mut out: Vec<DayModelUsage<M>> = Vec::new();
    let mut i: usize = 0;
    while i < rows.len()
        invariant
            i <= rows@.len(),
            out@.len() == i,
            forall|j: int| 0 <= j < i ==> (#[trigger] out@[j])@ == rows@[j]@,
        decreases rows@.len() - i,
    {
        let row = &rows[i];
        out.push(
            DayModelUsage {
                model: row.model.clone(),
                calls: row.calls,
                hit_tokens: row.hit_tokens,
                miss_tokens: row.miss_tokens,
                output_tokens: row.output_tokens,
                cost: row.cost,
            },
        );
        i = i + 1;
    }
    proof {
        assert(usage_views(out@) =~= usage_views(rows@));
    }
    out
}

impl<M: Copy> DataFile<M> {
    /// A copy of the data.
    pub fn copy(&self) -> (data: Self)
        ensures
            data@ == self@,
            self.wf() ==> data.wf() && data.usage() == self.usage(),
    {
        let mut days: Vec<DayUsage<M>> = Vec::new();
        let mut i: usize = 0;
        while i < self.days.len()
            invariant
                i <= self.days@.len(),
                days@.len() == i,
                forall|j: int|
                    0 <= j < i ==> (#[trigger] days@[j]).date@ == self.days@[j].date@
                        && usage_views(days@[j].rows@) == usage_views(self.days@[j].rows@),
            decreases self.days@.len() - i,
        {
            let day = &self.days[i];
            days.push(DayUsage { date: day.date.clone(), rows: copy_rows(&day.rows) });
            i = i + 1;
        }
        let data = DataFile {
            days,
            balance: copy_balance(&self.balance),
            last_import_at: self.last_import_at,
        };
        proof {
            assert(data@.days =~= self@.days);
            if self.wf() {
                lemma_same_data(*self, data);
            }
        }
        data
    }
}

} // verus!
