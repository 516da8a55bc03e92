//! Laws of snapshots: what they show is what the data hold for the local day.
use vstd::prelude::*;

use crate::dates::{civil, day_number, is_date, law_civil, local_day};
use crate::snapshot::{
    by_calls, day_fits, freshness_of, hit_sum, law_by_calls, miss_sum, snapshot_of, today,
    usage_fits, };
use crate::state::{rows_of, BalanceView, DayMap, UsageView};
use crate::text::padded;

verus! {

/// A snapshot shows every model of its day where there are at most four, and four of them where
/// there are more: the first ones in the order of their calls.
pub proof fn law_snapshot_shows_up_to_four<M>(
    days: DayMap<M>,
    balance: Option<BalanceView<M>>,
    last_import: Option<i64>,
    provider: Seq<char>,
    tz: int,
    now: i64,
)
    ensures
        ({
            let rows = rows_of(days, today(now as int, tz));
            let models = snapshot_of(days, balance, last_import, provider, tz, now).models;
            &&& rows.len() <= 4 ==> models.len() == rows.len() && models.to_multiset()
                == rows.to_multiset()
            &&& rows.len() > 4 ==> models.len() == 4
            &&& models.is_prefix_of(by_calls(rows))
            &&& forall|i: int|
                0 <= i < models.len() ==> exists|k: int|
                    0 <= k < rows.len() && rows[k] == #[trigger] models[i]
        }),
{
    broadcast use vstd::seq_lib::group_to_multiset_ensures;

    let rows = rows_of(days, today(now as int, tz));
    let models = snapshot_of(days, balance, last_import, provider, tz, now).models;
    law_by_calls(rows);
    assert(models =~= by_calls(rows).take(models.len() as int));
    assert forall|i: int| 0 <= i < models.len() implies exists|k: int|
        0 <= k < rows.len() && rows[k] == #[trigger] models[i] by {
        assert(by_calls(rows)[i] == models[i]);
        assert(by_calls(rows).contains(models[i]));
        assert(by_calls(rows).to_multiset().count(models[i]) > 0);
        assert(rows.contains(models[i]));
        let k = choose|k: int| 0 <= k < rows.len() && rows[k] == models[i];
        assert(rows[k] == models[i]);
    }
}

/// A day without usage shows no model and no token; any other day shows its own rows, whatever the
/// other days hold.
pub proof fn law_snapshot_is_of_its_day<M>(
    days: DayMap<M>,
    other: DayMap<M>,
    balance: Option<BalanceView<M>>,
    last_import: Option<i64>,
    provider: Seq<char>,
    tz: int,
    now: i64,
)
    ensures
        ({
            let date = today(now as int, tz);
            let a = snapshot_of(days, balance, last_import, provider, tz, now);
            let b = snapshot_of(other, balance, last_import, provider, tz, now);
            &&& !days.dom().contains(date) ==> a.models.len() == 0 && a.cache.hit_tokens == 0
                && a.cache.miss_tokens == 0 && a.cache.hit_rate is None
            &&& days.dom().contains(date) && other.dom().contains(date) && days[date]
                == other[date] ==> a == b
            &&& days.dom().contains(date) && day_fits(days[date]) ==> a.cache.hit_tokens == hit_sum(
                days[date],
            ) && a.cache.miss_tokens == miss_sum(days[date])
        }),
{
    let date = today(now as int, tz);
    if !days.dom().contains(date) {
        assert(hit_sum(rows_of(days, date)) == 0);
        assert(miss_sum(rows_of(days, date)) == 0);
        assert(by_calls(rows_of(days, date)).len() == 0);
    }
}

/// A snapshot carries the provider, the balance and the time that it is made of, and nothing of
/// these depends on the usage.
pub proof fn law_snapshot_carries<M>(
    days: DayMap<M>,
    balance: Option<BalanceView<M>>,
    last_import: Option<i64>,
    provider: Seq<char>,
    tz: int,
    now: i64,
)
    ensures
        ({
            let snap = snapshot_of(days, balance, last_import, provider, tz, now);
            &&& snap.v == 1
            &&& snap.generated_at == now
            &&& snap.provider == provider
            &&& snap.balance == balance
            &&& snap.cache.date == today(now as int, tz)
            &&& snap.freshness == freshness_of(
                match balance {
                    Some(b) => Some(b.checked_at),
                    None => None,
                },
                last_import,
                now as int,
            )
        }),
{
}

/// The local date is that of the day whose 86400 seconds hold the local time.
pub proof fn law_today(now: int, tz: int)
    ensures
        exists|y: int, m: int, d: int|
            {
                &&& is_date(y, m, d)
                &&& (#[trigger] day_number(y, m, d)) * 86400 <= now + tz * 60 < (day_number(y, m, d)
                    + 1) * 86400
                &&& today(now, tz) == padded(y, 4) + "-"@ + padded(m, 2) + "-"@ + padded(d, 2)
            },
{
    let day = local_day(now, tz);
    law_civil(day);
    let t = civil(day);
    assert(day_number(t.0, t.1, t.2) == day);
    assert(day * 86400 <= now + tz * 60 < (day + 1) * 86400);
}

/// Tokens add up over rows, one behind the other, and one row counts with its own.
pub proof fn law_token_sums<M>(a: Seq<UsageView<M>>, b: Seq<UsageView<M>>, row: UsageView<M>)
    ensures
        hit_sum(a + b) == hit_sum(a) + hit_sum(b),
        miss_sum(a + b) == miss_sum(a) + miss_sum(b),
        hit_sum(seq![row]) == row.hit_tokens,
        miss_sum(seq![row]) == row.miss_tokens,
        day_fits(a) <==> hit_sum(a) + miss_sum(a) <= 0xffff_ffff_ffff_ffff,
    decreases b.len(),
{
    assert(seq![row].drop_last() =~= Seq::empty());
    assert(hit_sum(seq![row].drop_last()) == 0);
    assert(miss_sum(seq![row].drop_last()) == 0);
    if b.len() > 0 {
        law_token_sums(a, b.drop_last(), row);
        assert((a + b).drop_last() =~= a + b.drop_last());
        assert((a + b).last() == b.last());
    } else {
        assert(a + b =~= a);
    }
}

/// Data fit exactly where each of their days does.
pub proof fn law_when_data_fit<M>(days: DayMap<M>, date: Seq<char>, rows: Seq<UsageView<M>>)
    ensures
        usage_fits(DayMap::<M>::empty()),
        usage_fits(days) && day_fits(rows) ==> usage_fits(days.insert(date, rows)),
        usage_fits(days.insert(date, rows)) ==> day_fits(rows),
{
    let after = days.insert(date, rows);
    if usage_fits(after) {
        assert(after.dom().contains(date));
        assert(after[date] == rows);
    }
    if usage_fits(days) && day_fits(rows) {
        assert forall|d: Seq<char>| #[trigger] after.dom().contains(d) implies day_fits(after[d]) by {
            if d != date {
                assert(days.dom().contains(d));
            }
        }
    }
}

/// Data are current exactly where the balance or the last import is at most 60 seconds old, cached
/// where either is there but neither is, and unavailable where neither is there.
pub proof fn law_freshness(balance_checked: Option<i64>, last_import: Option<i64>, now: int)
    ensures
        ({
            let recent = (balance_checked matches Some(t) && now - t <= 60) || (last_import matches Some(
                t,
            ) && now - t <= 60);
            let text = freshness_of(balance_checked, last_import, now);
            &&& text == "current"@ <==> recent
            &&& text == "cached"@ <==> !recent && (balance_checked is Some || last_import is Some)
            &&& text == "unavailable"@ <==> balance_checked is None && last_import is None
        }),
{
    reveal_strlit("current");
    reveal_strlit("cached");
    reveal_strlit("unavailable");
    assert("current"@.len() == 7);
    assert("cached"@.len() == 6);
    assert("unavailable"@.len() == 11);
}

} // verus!
