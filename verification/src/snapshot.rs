//! The snapshot that the band shows: balance, today's cache use, and the busiest models.
use vstd::prelude::*;
use vstd::string::*;

use crate::dates::{civil, date_at, date_text, law_date_text_unique, local_day, unix_now};
use crate::state::{
    copy_balance, lemma_day_map, option_balance, rows_of, usage_views, BalanceInfo, BalanceView, DataFile, DayMap,
    DayModelUsage, UsageView,
};

verus! {

/// The version of the snapshot's form.
pub const SNAPSHOT_V: u32 = 1;

/// The largest number of models in a snapshot.
pub const MAX_MODELS: usize = 4;

/// The age in seconds up to which data count as fresh.
pub const FRESH_SECS: i64 = 60;

/// A share of tokens: so many of so many.
#[derive(Debug, Clone, Copy, PartialEq, Eq)]
pub struct HitRate {
    pub hits: u64,
    pub total: u64,
}

/// Today's use of the cache. The hit rate is missing where no token was used.
#[derive(Debug, Clone, PartialEq, Eq)]
pub struct CacheSummary {
    pub date: String,
    pub hit_rate: Option<HitRate>,
    pub hit_tokens: u64,
    pub miss_tokens: u64,
}

/// Today's use of one model.
#[derive(Debug, Clone, PartialEq)]
pub struct ModelUsage<M> {
    pub model: String,
    pub calls: u64,
    pub hit_tokens: u64,
    pub miss_tokens: u64,
    pub output_tokens: u64,
    pub cost: M,
}

/// The snapshot. A missing balance means that the balance is not available.
#[derive(Debug, Clone, PartialEq)]
pub struct Snapshot<M> {
    pub v: u32,
    pub generated_at: i64,
    pub provider: String,
    pub balance: Option<BalanceInfo<M>>,
    pub cache: CacheSummary,
    pub models: Vec<ModelUsage<M>>,
    /// `current`, `cached` or `unavailable`.
    pub freshness: &'static str,
}

/// The part of a snapshot whose change is worth a push: all but the version, the time at which
/// it was made and the freshness that follows from that time.
#[derive(Debug, Clone, PartialEq)]
pub struct Signature<M> {
    pub provider: String,
    pub balance: Option<BalanceInfo<M>>,
    pub cache: CacheSummary,
    pub models: Vec<ModelUsage<M>>,
}

/// What a summary of the cache says.
pub struct CacheView {
    pub date: Seq<char>,
    pub hit_rate: Option<HitRate>,
    pub hit_tokens: u64,
    pub miss_tokens: u64,
}

impl View for CacheSummary {
    type V = CacheView;

    open spec fn view(&self) -> CacheView {
        CacheView {
            date: self.date@,
            hit_rate: self.hit_rate,
            hit_tokens: self.hit_tokens,
            miss_tokens: self.miss_tokens,
        }
    }
}

impl<M> View for ModelUsage<M> {
    type V = UsageView<M>;

    open spec fn view(&self) -> UsageView<M> {
        UsageView {
            model: self.model@,
            calls: self.calls,
            hit_tokens: self.hit_tokens,
            miss_tokens: self.miss_tokens,
            output_tokens: self.output_tokens,
            cost: self.cost,
        }
    }
}

/// What a list of models says.
pub open spec fn model_views<M>(models: Seq<ModelUsage<M>>) -> Seq<UsageView<M>> {
    models.map_values(|m: ModelUsage<M>| m@)
}

/// What a snapshot says.
pub struct SnapshotView<M> {
    pub v: u32,
    pub generated_at: i64,
    pub provider: Seq<char>,
    pub balance: Option<BalanceView<M>>,
    pub cache: CacheView,
    pub models: Seq<UsageView<M>>,
    pub freshness: Seq<char>,
}

impl<M> View for Snapshot<M> {
    type V = SnapshotView<M>;

    open spec fn view(&self) -> SnapshotView<M> {
        SnapshotView {
            v: self.v,
            generated_at: self.generated_at,
            provider: self.provider@,
            balance: option_balance(self.balance),
            cache: self.cache@,
            models: model_views(self.models@),
            freshness: self.freshness@,
        }
    }
}

/// What a signature says.
pub struct SignatureView<M> {
    pub provider: Seq<char>,
    pub balance: Option<BalanceView<M>>,
    pub cache: CacheView,
    pub models: Seq<UsageView<M>>,
}

impl<M> View for Signature<M> {
    type V = SignatureView<M>;

    open spec fn view(&self) -> SignatureView<M> {
        SignatureView {
            provider: self.provider@,
            balance: option_balance(self.balance),
            cache: self.cache@,
            models: model_views(self.models@),
        }
    }
}

/// The tokens that the rows read from the cache.
pub open spec fn hit_sum<M>(rows: Seq<UsageView<M>>) -> nat
    decreases rows.len(),
{
    if rows.len() == 0 {
        0
    } else {
        hit_sum(rows.drop_last()) + rows.last().hit_tokens as nat
    }
}

/// The tokens that the rows did not find in the cache.
pub open spec fn miss_sum<M>(rows: Seq<UsageView<M>>) -> nat
    decreases rows.len(),
{
    if rows.len() == 0 {
        0
    } else {
        miss_sum(rows.drop_last()) + rows.last().miss_tokens as nat
    }
}

/// Whether the tokens of a day, found and not found, add up within 64 bits.
pub open spec fn day_fits<M>(rows: Seq<UsageView<M>>) -> bool {
    hit_sum(rows) + miss_sum(rows) <= u64::MAX
}

/// Whether the tokens of every day add up within 64 bits.
pub open spec fn usage_fits<M>(days: DayMap<M>) -> bool {
    forall|date: Seq<char>| #[trigger] days.dom().contains(date) ==> day_fits(days[date])
}

/// The rows with `row` put behind those with at least as many calls.
pub open spec fn insert_by_calls<M>(rows: Seq<UsageView<M>>, row: UsageView<M>) -> Seq<UsageView<M>>
    decreases rows.len(),
{
    if rows.len() > 0 && rows.last().calls < row.calls {
        insert_by_calls(rows.drop_last(), row).push(rows.last())
    } else {
        rows.push(row)
    }
}

/// The rows in the order of their calls, most first; rows with equally many calls stay in their
/// order.
pub open spec fn by_calls<M>(rows: Seq<UsageView<M>>) -> Seq<UsageView<M>>
    decreases rows.len(),
{
    if rows.len() == 0 {
        rows
    } else {
        insert_by_calls(by_calls(rows.drop_last()), rows.last())
    }
}

/// The first `n` rows, or all where there are fewer.
pub open spec fn first_rows<M>(rows: Seq<UsageView<M>>, n: int) -> Seq<UsageView<M>> {
    if rows.len() > n {
        rows.take(n)
    } else {
        rows
    }
}

/// Whether a time is known and at most a minute before `now`.
pub open spec fn is_fresh(t: Option<i64>, now: int) -> bool {
    t matches Some(t) && now - t <= FRESH_SECS
}

/// `current` where balance or usage are fresh, `cached` where either was ever there,
/// `unavailable` otherwise.
pub open spec fn freshness_of(
    balance_checked: Option<i64>,
    last_import: Option<i64>,
    now: int,
) -> Seq<char> {
    if is_fresh(balance_checked, now) || is_fresh(last_import, now) {
        "current"@
    } else if balance_checked is Some || last_import is Some {
        "cached"@
    } else {
        "unavailable"@
    }
}

/// The share of hits among the tokens of a day; none where there are no tokens.
pub open spec fn hit_rate_of(hits: int, misses: int) -> Option<HitRate> {
    if hits + misses > 0 {
        Some(HitRate { hits: hits as u64, total: (hits + misses) as u64 })
    } else {
        None
    }
}

/// When the balance was reported.
pub open spec fn checked_at<M>(balance: Option<BalanceView<M>>) -> Option<i64> {
    match balance {
        Some(b) => Some(b.checked_at),
        None => None,
    }
}

/// The local date at `now`.
pub open spec fn today(now: int, tz: int) -> Seq<char> {
    date_text(civil(local_day(now, tz)))
}

/// The snapshot of the data at `now`.
pub open spec fn snapshot_of<M>(
    days: DayMap<M>,
    balance: Option<BalanceView<M>>,
    last_import: Option<i64>,
    provider: Seq<char>,
    tz: int,
    now: i64,
) -> SnapshotView<M> {
    let rows = rows_of(days, today(now as int, tz));
    SnapshotView {
        v: SNAPSHOT_V,
        generated_at: now,
        provider,
        balance,
        cache: CacheView {
            date: today(now as int, tz),
            hit_rate: hit_rate_of(hit_sum(rows) as int, miss_sum(rows) as int),
            hit_tokens: hit_sum(rows) as u64,
            miss_tokens: miss_sum(rows) as u64,
        },
        models: first_rows(by_calls(rows), MAX_MODELS as int),
        freshness: freshness_of(checked_at(balance), last_import, now as int),
    }
}

fn copy_model<M: Copy>(r: &DayModelUsage<M>) -> (m: ModelUsage<M>)
    ensures
        m@ == r@,
{
    ModelUsage {
        model: r.model.clone(),
        calls: r.calls,
        hit_tokens: r.hit_tokens,
        miss_tokens: r.miss_tokens,
        output_tokens: r.output_tokens,
        cost: r.cost,
    }
}

proof fn lemma_insert_at<M>(rows: Seq<UsageView<M>>, row: UsageView<M>, k: int)
    requires
        0 <= k <= rows.len(),
        forall|j: int| k <= j < rows.len() ==> (#[trigger] rows[j]).calls < row.calls,
        k > 0 ==> rows[k - 1].calls >= row.calls,
    ensures
        insert_by_calls(rows, row) == rows.insert(k, row),
    decreases rows.len(),
{
    if k < rows.len() {
        assert(rows[rows.len() - 1].calls < row.calls);
        let front = rows.drop_last();
        assert forall|j: int| k <= j < front.len() implies (#[trigger] front[j]).calls < row.calls by {
            assert(front[j] == rows[j]);
        }
        lemma_insert_at(front, row, k);
        assert(front.insert(k, row).push(rows.last()) =~= rows.insert(k, row));
    } else {
        assert(rows.push(row) =~= rows.insert(k, row));
    }
}

/// Puts a model behind those with at least as many calls.
fn insert_model<M>(models: &mut Vec<ModelUsage<M>>, m: ModelUsage<M>)
    ensures
        model_views(final(models)@) == insert_by_calls(model_views(old(models)@), m@),
{
    let ghost before = model_views(models@);
    let mut k: usize = models.len();
    while k > 0 && models[k - 1].calls < m.calls
        invariant
            models@ == old(models)@,
            before == model_views(old(models)@),
            k <= models@.len(),
            forall|j: int| k <= j < before.len() ==> (#[trigger] before[j]).calls < m.calls,
        decreases k,
    {
        k = k - 1;
    }
    proof {
        if k > 0 {
            assert(before[k - 1].calls == models@[k - 1].calls);
        }
        lemma_insert_at(before, m@, k as int);
        assert(model_views(models@.insert(k as int, m)) =~= before.insert(k as int, m@));
    }
    models.insert(k, m);
}

proof fn lemma_sums_grow<M>(rows: Seq<UsageView<M>>, k: int)
    requires
        0 <= k <= rows.len(),
    ensures
        hit_sum(rows.take(k)) <= hit_sum(rows),
        miss_sum(rows.take(k)) <= miss_sum(rows),
    decreases rows.len() - k,
{
    if k < rows.len() {
        assert(rows.take(k + 1).drop_last() =~= rows.take(k));
        lemma_sums_grow(rows, k + 1);
    } else {
        assert(rows.take(k) =~= rows);
    }
}

/// How fresh the data are at `now`.
pub fn freshness(
    balance_checked: Option<i64>,
    last_import: Option<i64>,
    now: i64,
) -> (text: &'static str)
    ensures
        text@ == freshness_of(balance_checked, last_import, now as int),
{
    let balance_fresh = match balance_checked {
        Some(t) => now as i128 - t as i128 <= FRESH_SECS as i128,
        None => false,
    };
    let import_fresh = match last_import {
        Some(t) => now as i128 - t as i128 <= FRESH_SECS as i128,
        None => false,
    };
    if balance_fresh || import_fresh {
        "current"
    } else if balance_checked.is_some() || last_import.is_some() {
        "cached"
    } else {
        "unavailable"
    }
}

/// The tokens of some rows, found and not found; nothing where they do not add up within 64 bits.
fn day_tokens<M>(rows: &Vec<DayModelUsage<M>>) -> (r: Option<(u64, u64)>)
    ensures
        r is Some <==> day_fits(usage_views(rows@)),
        r matches Some(t) ==> t.0 == hit_sum(usage_views(rows@)) && t.1 == miss_sum(
            usage_views(rows@),
        ),
{
    let ghost all = usage_views(rows@);
    let mut hits: u64 = 0;
    let mut misses: u64 = 0;
    let mut i: usize = 0;
    proof {
        assert(all.take(0) =~= Seq::empty());
    }
    while i < rows.len()
        invariant
            all == usage_views(rows@),
            i <= rows@.len(),
            hits == hit_sum(all.take(i as int)),
            misses == miss_sum(all.take(i as int)),
            hits + misses <= u64::MAX,
        decreases rows@.len() - i,
    {
        proof {
            assert(all.take(i + 1).drop_last() =~= all.take(i as int));
            assert(all.take(i + 1).last() == rows@[i as int]@);
            lemma_sums_grow(all, i + 1);
        }
        let used: u64 = hits + misses;
        let more = match rows[i].hit_tokens.checked_add(rows[i].miss_tokens) {
            Some(n) => n,
            None => return None,
        };
        match used.checked_add(more) {
            Some(_) => {},
            None => return None,
        }
        hits = hits + rows[i].hit_tokens;
        misses = misses + rows[i].miss_tokens;
        i = i + 1;
    }
    proof {
        assert(all.take(i as int) =~= all);
    }
    Some((hits, misses))
}

/// Whether the tokens of every day add up within 64 bits.
pub fn data_fits<M>(data: &DataFile<M>) -> (r: bool)
    requires
        data.wf(),
    ensures
        r == usage_fits(data.usage()),
{
    let mut i: usize = 0;
    while i < data.days.len()
        invariant
            data.wf(),
            i <= data.days@.len(),
            forall|j: int|
                0 <= j < i ==> day_fits(usage_views((#[trigger] data.days@[j]).rows@)),
        decreases data.days@.len() - i,
    {
        proof {
            lemma_day_map(data.days@, i as int);
        }
        if day_tokens(&data.days[i].rows).is_none() {
            proof {
                assert(data.usage().dom().contains(data.days@[i as int].date@));
            }
            return false;
        }
        i = i + 1;
    }
    proof {
        assert forall|date: Seq<char>| #[trigger] data.usage().dom().contains(date) implies day_fits(
            data.usage()[date],
        ) by {
            let k = choose|k: int| crate::state::day_at(data.days@, date, k);
            lemma_day_map(data.days@, k);
        }
    }
    true
}

/// The snapshot of the data at `now`.
pub fn snapshot_at<M: Copy>(
    data: &DataFile<M>,
    provider: &str,
    tz_offset_min: i32,
    now: i64,
) -> (snap: Snapshot<M>)
    requires
        data.wf(),
        day_fits(rows_of(data.usage(), today(now as int, tz_offset_min as int))),
    ensures
        snap@ == snapshot_of(
            data.usage(),
            option_balance(data.balance),
            data.last_import_at,
            provider@,
            tz_offset_min as int,
            now,
        ),
{
    let date = date_at(now, tz_offset_min);
    let ghost all = rows_of(data.usage(), date@);
    let mut hit_tokens: u64 = 0;
    let mut miss_tokens: u64 = 0;
    let mut models: Vec<ModelUsage<M>> = Vec::new();
    proof {
        assert(model_views(models@) =~= Seq::empty());
    }
    if let Some(rows) = data.rows(date.as_str()) {
        let mut i: usize = 0;
        proof {
            assert(all.take(0) =~= Seq::empty());
        }
        while i < rows.len()
            invariant
                all == usage_views(rows@),
                day_fits(all),
                i <= rows@.len(),
                hit_tokens == hit_sum(all.take(i as int)),
                miss_tokens == miss_sum(all.take(i as int)),
                model_views(models@) == by_calls(all.take(i as int)),
            decreases rows@.len() - i,
        {
            proof {
                assert(all.take(i + 1).drop_last() =~= all.take(i as int));
                assert(all.take(i + 1).last() == rows@[i as int]@);
                lemma_sums_grow(all, i + 1);
            }
            hit_tokens = hit_tokens + rows[i].hit_tokens;
            miss_tokens = miss_tokens + rows[i].miss_tokens;
            insert_model(&mut models, copy_model(&rows[i]));
            i = i + 1;
        }
        proof {
            assert(all.take(i as int) =~= all);
        }
    }
    let hit_rate = if hit_tokens + miss_tokens > 0 {
        Some(HitRate { hits: hit_tokens, total: hit_tokens + miss_tokens })
    } else {
        None
    };
    let ghost ranked = model_views(models@);
    models.truncate(MAX_MODELS);
    proof {
        assert(model_views(models@) =~= first_rows(ranked, MAX_MODELS as int));
    }
    let balance_checked: Option<i64> = match &data.balance {
        Some(b) => Some(b.checked_at),
        None => None,
    };
    Snapshot {
        v: SNAPSHOT_V,
        generated_at: now,
        provider: provider.to_owned(),
        balance: copy_balance(&data.balance),
        cache: CacheSummary { date, hit_rate, hit_tokens, miss_tokens },
        models,
        freshness: freshness(balance_checked, data.last_import_at, now),
    }
}

/// The snapshot of the data now.
pub fn build_snapshot<M: Copy>(data: &DataFile<M>, provider: &str, tz_offset_min: i32) -> (snap:
    Snapshot<M>)
    requires
        data.wf(),
        usage_fits(data.usage()),
    ensures
        snap@ == snapshot_of(
            data.usage(),
            option_balance(data.balance),
            data.last_import_at,
            provider@,
            tz_offset_min as int,
            snap@.generated_at,
        ),
{
    let now = unix_now();
    snapshot_at(data, provider, tz_offset_min, now)
}

/// The snapshot of the data at `now`; nothing where the tokens of that day do not add up within 64
/// bits.
pub fn checked_snapshot_at<M: Copy>(
    data: &DataFile<M>,
    provider: &str,
    tz_offset_min: i32,
    now: i64,
) -> (r: Option<Snapshot<M>>)
    requires
        data.wf(),
    ensures
        r is None <==> !day_fits(rows_of(data.usage(), today(now as int, tz_offset_min as int))),
        r matches Some(snap) ==> snap@ == snapshot_of(
            data.usage(),
            option_balance(data.balance),
            data.last_import_at,
            provider@,
            tz_offset_min as int,
            now,
        ),
{
    let date = date_at(now, tz_offset_min);
    if let Some(rows) = data.rows(date.as_str()) {
        if day_tokens(rows).is_none() {
            return None;
        }
    }
    Some(snapshot_at(data, provider, tz_offset_min, now))
}

/// The snapshot of the data now; nothing where today's tokens do not add up within 64 bits.
pub fn checked_snapshot<M: Copy>(data: &DataFile<M>, provider: &str, tz_offset_min: i32) -> (r:
    Option<Snapshot<M>>)
    requires
        data.wf(),
    ensures
        exists|now: i64|
            {
                &&& r is None <==> !day_fits(
                    rows_of(data.usage(), #[trigger] today(now as int, tz_offset_min as int)),
                )
                &&& r matches Some(snap) ==> snap@ == snapshot_of(
                    data.usage(),
                    option_balance(data.balance),
                    data.last_import_at,
                    provider@,
                    tz_offset_min as int,
                    now,
                )
            },
{
    let now = unix_now();
    let ghost date = today(now as int, tz_offset_min as int);
    checked_snapshot_at(data, provider, tz_offset_min, now)
}

/// The part of a snapshot whose change is worth a push.
pub open spec fn signature_of<M>(snap: SnapshotView<M>) -> SignatureView<M> {
    SignatureView {
        provider: snap.provider,
        balance: snap.balance,
        cache: snap.cache,
        models: snap.models,
    }
}

/// The part of a snapshot whose change is worth a push.
pub fn stable_signature<M: Copy>(snap: &Snapshot<M>) -> (sig: Signature<M>)
    ensures
        sig@ == signature_of(snap@),
{
    let mut models: Vec<ModelUsage<M>> = Vec::new();
    let mut i: usize = 0;
    while i < snap.models.len()
        invariant
            i <= snap.models@.len(),
            models@.len() == i,
            forall|j: int| 0 <= j < i ==> (#[trigger] models@[j])@ == snap.models@[j]@,
        decreases snap.models@.len() - i,
    {
        let m = &snap.models[i];
        models.push(
            ModelUsage {
                model: m.model.clone(),
                calls: m.calls,
                hit_tokens: m.hit_tokens,
                miss_tokens: m.miss_tokens,
                output_tokens: m.output_tokens,
                cost: m.cost,
            },
        );
        i = i + 1;
    }
    proof {
        assert(model_views(models@) =~= model_views(snap.models@));
    }
    Signature {
        provider: snap.provider.clone(),
        balance: copy_balance(&snap.balance),
        cache: CacheSummary {
            date: snap.cache.date.clone(),
            hit_rate: snap.cache.hit_rate,
            hit_tokens: snap.cache.hit_tokens,
            miss_tokens: snap.cache.miss_tokens,
        },
        models,
    }
}

/// Two snapshots have the same signature exactly where provider, balance, cache summary and
/// models are the same; version, time and freshness do not count.
pub proof fn law_signature_is_the_data<M>(a: SnapshotView<M>, b: SnapshotView<M>)
    ensures
        signature_of(a) == signature_of(b) <==> (a.provider == b.provider && a.balance == b.balance
            && a.cache == b.cache && a.models == b.models),
{
}

/// As long as the data and the local date stay, so does the signature.
pub proof fn law_signature_stays_within_a_day<M>(
    days: DayMap<M>,
    balance: Option<BalanceView<M>>,
    import_a: Option<i64>,
    import_b: Option<i64>,
    provider: Seq<char>,
    tz: int,
    now_a: i64,
    now_b: i64,
)
    requires
        local_day(now_a as int, tz) == local_day(now_b as int, tz),
    ensures
        signature_of(snapshot_of(days, balance, import_a, provider, tz, now_a)) == signature_of(
            snapshot_of(days, balance, import_b, provider, tz, now_b),
        ),
{
}

/// Another local date makes another signature, whatever the data are.
pub proof fn law_new_day_changes_signature<M>(
    days_a: DayMap<M>,
    days_b: DayMap<M>,
    balance_a: Option<BalanceView<M>>,
    balance_b: Option<BalanceView<M>>,
    import_a: Option<i64>,
    import_b: Option<i64>,
    provider_a: Seq<char>,
    provider_b: Seq<char>,
    tz: int,
    now_a: i64,
    now_b: i64,
)
    requires
        local_day(now_a as int, tz) != local_day(now_b as int, tz),
    ensures
        signature_of(snapshot_of(days_a, balance_a, import_a, provider_a, tz, now_a))
            != signature_of(snapshot_of(days_b, balance_b, import_b, provider_b, tz, now_b)),
{
    if today(now_a as int, tz) == today(now_b as int, tz) {
        law_date_text_unique(local_day(now_a as int, tz), local_day(now_b as int, tz));
    }
}

/// A balance reported at another time makes another signature.
pub proof fn law_new_balance_changes_signature<M>(
    a: SnapshotView<M>,
    b: SnapshotView<M>,
)
    requires
        checked_at(a.balance) != checked_at(b.balance),
    ensures
        signature_of(a) != signature_of(b),
{
}

proof fn lemma_insert_by_calls<M>(rows: Seq<UsageView<M>>, row: UsageView<M>)
    requires
        forall|i: int, j: int|
            0 <= i < j < rows.len() ==> (#[trigger] rows[i]).calls >= (#[trigger] rows[j]).calls,
    ensures
        ({
            let after = insert_by_calls(rows, row);
            &&& after.len() == rows.len() + 1
            &&& forall|i: int, j: int|
                0 <= i < j < after.len() ==> (#[trigger] after[i]).calls >= (
                #[trigger] after[j]).calls
            &&& after.to_multiset() == rows.to_multiset().insert(row)
            &&& forall|i: int|
                0 <= i < after.len() ==> (#[trigger] after[i]).calls == row.calls
                    || exists|j: int| 0 <= j < rows.len() && rows[j] == after[i]
        }),
    decreases rows.len(),
{
    broadcast use vstd::seq_lib::group_to_multiset_ensures;

    let after = insert_by_calls(rows, row);
    if rows.len() > 0 && rows.last().calls < row.calls {
        let front = rows.drop_last();
        lemma_insert_by_calls(front, row);
        let mid = insert_by_calls(front, row);
        assert(after == mid.push(rows.last()));
        assert(rows =~= front.push(rows.last()));
        assert forall|i: int, j: int| 0 <= i < j < after.len() implies (#[trigger] after[i]).calls
            >= (#[trigger] after[j]).calls by {
            if j == after.len() - 1 {
                if mid[i].calls != row.calls {
                    let k = choose|k: int| 0 <= k < front.len() && front[k] == mid[i];
                    assert(rows[k] == mid[i]);
                    assert(rows[k].calls >= rows[rows.len() - 1].calls);
                }
            }
        }
        assert forall|i: int| 0 <= i < after.len() implies (#[trigger] after[i]).calls == row.calls
            || exists|j: int| 0 <= j < rows.len() && rows[j] == after[i] by {
            if i == after.len() - 1 {
                assert(rows[rows.len() - 1] == after[i]);
            } else if mid[i].calls != row.calls {
                let k = choose|k: int| 0 <= k < front.len() && front[k] == mid[i];
                assert(rows[k] == after[i]);
            }
        }
        assert(after.to_multiset() =~= rows.to_multiset().insert(row));
    } else {
        assert forall|i: int, j: int| 0 <= i < j < after.len() implies (#[trigger] after[i]).calls
            >= (#[trigger] after[j]).calls by {
            if j == after.len() - 1 {
                assert(rows[rows.len() - 1].calls >= row.calls);
                assert(rows[i].calls >= rows[rows.len() - 1].calls || i == rows.len() - 1);
            }
        }
        assert forall|i: int| 0 <= i < after.len() implies (#[trigger] after[i]).calls == row.calls
            || exists|j: int| 0 <= j < rows.len() && rows[j] == after[i] by {
            if i < rows.len() {
                assert(rows[i] == after[i]);
            }
        }
    }
}

/// Ordering the rows by calls neither loses nor adds a row, and puts those with more calls first.
pub proof fn law_by_calls<M>(rows: Seq<UsageView<M>>)
    ensures
        by_calls(rows).len() == rows.len(),
        by_calls(rows).to_multiset() == rows.to_multiset(),
        forall|i: int, j: int|
            0 <= i < j < rows.len() ==> (#[trigger] by_calls(rows)[i]).calls >= (
            #[trigger] by_calls(rows)[j]).calls,
    decreases rows.len(),
{
    broadcast use vstd::seq_lib::group_to_multiset_ensures;

    if rows.len() > 0 {
        law_by_calls(rows.drop_last());
        lemma_insert_by_calls(by_calls(rows.drop_last()), rows.last());
        assert(rows =~= rows.drop_last().push(rows.last()));
    }
}

/// The rows with exactly `calls` calls.
pub open spec fn with_calls<M>(rows: Seq<UsageView<M>>, calls: u64) -> Seq<UsageView<M>>
    decreases rows.len(),
{
    if rows.len() == 0 {
        rows
    } else if rows.last().calls == calls {
        with_calls(rows.drop_last(), calls).push(rows.last())
    } else {
        with_calls(rows.drop_last(), calls)
    }
}

proof fn lemma_insert_keeps_ties<M>(rows: Seq<UsageView<M>>, row: UsageView<M>, calls: u64)
    ensures
        with_calls(insert_by_calls(rows, row), calls) == with_calls(rows.push(row), calls),
    decreases rows.len(),
{
    reveal_with_fuel(with_calls, 3);
    if rows.len() > 0 && rows.last().calls < row.calls {
        let front = rows.drop_last();
        lemma_insert_keeps_ties(front, row, calls);
        let mid = insert_by_calls(front, row);
        assert(mid.push(rows.last()).drop_last() =~= mid);
        assert(front.push(row).drop_last() =~= front);
        assert(rows.push(row).drop_last() =~= rows);
    }
}

/// Rows with equally many calls stay in their order.
pub proof fn law_by_calls_is_stable<M>(rows: Seq<UsageView<M>>, calls: u64)
    ensures
        with_calls(by_calls(rows), calls) == with_calls(rows, calls),
    decreases rows.len(),
{
    if rows.len() > 0 {
        let front = rows.drop_last();
        law_by_calls_is_stable(front, calls);
        lemma_insert_keeps_ties(by_calls(front), rows.last(), calls);
        assert(by_calls(front).push(rows.last()).drop_last() =~= by_calls(front));
    }
}

/// A snapshot shows at most four models, the busiest first, and none that is left out has more
/// calls than one that is shown.
pub proof fn law_snapshot_shows_the_busiest<M>(
    days: DayMap<M>,
    balance: Option<BalanceView<M>>,
    last_import: Option<i64>,
    provider: Seq<char>,
    tz: int,
    now: i64,
    i: int,
    j: int,
)
    requires
        0 <= i < j < rows_of(days, today(now as int, tz)).len(),
        i < MAX_MODELS,
    ensures
        ({
            let snap = snapshot_of(days, balance, last_import, provider, tz, now);
            let ranked = by_calls(rows_of(days, today(now as int, tz)));
            &&& snap.models.len() <= MAX_MODELS
            &&& i < snap.models.len()
            &&& snap.models[i] == ranked[i]
            &&& snap.models[i].calls >= ranked[j].calls
        }),
{
    law_by_calls(rows_of(days, today(now as int, tz)));
}

/// The hit rate is missing exactly where no token was used, and is never above one.
pub proof fn law_hit_rate<M>(
    days: DayMap<M>,
    balance: Option<BalanceView<M>>,
    last_import: Option<i64>,
    provider: Seq<char>,
    tz: int,
    now: i64,
)
    requires
        day_fits(rows_of(days, today(now as int, tz))),
    ensures
        ({
            let cache = snapshot_of(days, balance, last_import, provider, tz, now).cache;
            &&& cache.hit_rate is None <==> cache.hit_tokens == 0 && cache.miss_tokens == 0
            &&& cache.hit_rate matches Some(r) ==> r.hits == cache.hit_tokens && r.total
                == cache.hit_tokens + cache.miss_tokens && r.hits <= r.total
        }),
{
}

/// As time passes, the same data never grow fresher.
pub proof fn law_freshness_fades(
    balance_checked: Option<i64>,
    last_import: Option<i64>,
    now: int,
    later: int,
)
    requires
        now <= later,
    ensures
        freshness_of(balance_checked, last_import, later) == "current"@ ==> freshness_of(
            balance_checked,
            last_import,
            now,
        ) == "current"@,
        freshness_of(balance_checked, last_import, now) == "unavailable"@ <==> balance_checked is None
            && last_import is None,
{
    reveal_strlit("current");
    reveal_strlit("cached");
    reveal_strlit("unavailable");
    assert("current"@.len() == 7);
    assert("cached"@.len() == 6);
    assert("unavailable"@.len() == 11);
}

} // verus!
