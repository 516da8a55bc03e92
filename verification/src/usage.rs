//! Usage totals: the rows of both tables, added up by date and model.
use vstd::prelude::*;
use vstd::string::*;

use crate::order::{lemma_pair_order, pair_less, pair_rank, Rank};
use crate::tables::{
    amount_views, cost_views, known_type, AmountLine, AmountView, CostLine, CostView, TYPE_CALLS,
    TYPE_HIT, TYPE_MISS, TYPE_OUTPUT,
};
use crate::text::{text_eq, texts};

verus! {

/// The totals of one model on one date. The costs stand in the order of the table; their sum is
/// the cost.
#[derive(Debug, Clone, PartialEq, Eq)]
pub struct UsageTotals {
    pub date: String,
    pub model: String,
    pub calls: u64,
    pub hit_tokens: u64,
    pub miss_tokens: u64,
    pub output_tokens: u64,
    pub costs: Vec<String>,
}

/// What the totals of one model on one date say.
pub struct TotalsView {
    pub date: Seq<char>,
    pub model: Seq<char>,
    pub calls: nat,
    pub hit_tokens: nat,
    pub miss_tokens: nat,
    pub output_tokens: nat,
    pub costs: Seq<Seq<char>>,
}

impl View for UsageTotals {
    type V = TotalsView;

    open spec fn view(&self) -> TotalsView {
        TotalsView {
            date: self.date@,
            model: self.model@,
            calls: self.calls as nat,
            hit_tokens: self.hit_tokens as nat,
            miss_tokens: self.miss_tokens as nat,
            output_tokens: self.output_tokens as nat,
            costs: texts(self.costs@),
        }
    }
}

impl TotalsView {
    /// Date and model.
    pub open spec fn key(self) -> (Seq<char>, Seq<char>) {
        (self.date, self.model)
    }
}

/// What a list of totals says.
pub open spec fn totals_views(list: Seq<UsageTotals>) -> Seq<TotalsView> {
    list.map_values(|t: UsageTotals| t@)
}

/// The sum of one metric over the rows for a date and model.
pub open spec fn total_of(
    rows: Seq<AmountView>,
    key: (Seq<char>, Seq<char>),
    kind: Seq<char>,
) -> nat
    decreases rows.len(),
{
    if rows.len() == 0 {
        0
    } else {
        let r = rows.last();
        total_of(rows.drop_last(), key, kind) + if (r.date, r.model) == key && r.type_ == kind {
            r.amount as nat
        } else {
            0
        }
    }
}

/// The costs of the rows for a date and model, in their order.
pub open spec fn costs_for(rows: Seq<CostView>, key: (Seq<char>, Seq<char>)) -> Seq<Seq<char>>
    decreases rows.len(),
{
    if rows.len() == 0 {
        Seq::empty()
    } else {
        let r = rows.last();
        let front = costs_for(rows.drop_last(), key);
        if (r.date, r.model) == key {
            front.push(r.cost)
        } else {
            front
        }
    }
}

/// The totals for a date and model.
pub open spec fn totals_for(
    amounts: Seq<AmountView>,
    costs: Seq<CostView>,
    key: (Seq<char>, Seq<char>),
) -> TotalsView {
    TotalsView {
        date: key.0,
        model: key.1,
        calls: total_of(amounts, key, TYPE_CALLS@),
        hit_tokens: total_of(amounts, key, TYPE_HIT@),
        miss_tokens: total_of(amounts, key, TYPE_MISS@),
        output_tokens: total_of(amounts, key, TYPE_OUTPUT@),
        costs: costs_for(costs, key),
    }
}

/// Whether a row of either table is for the date and model.
pub open spec fn is_named(
    amounts: Seq<AmountView>,
    costs: Seq<CostView>,
    key: (Seq<char>, Seq<char>),
) -> bool {
    ||| exists|i: int|
        0 <= i < amounts.len() && ((#[trigger] amounts[i]).date, amounts[i].model) == key
    ||| exists|i: int| 0 <= i < costs.len() && ((#[trigger] costs[i]).date, costs[i].model) == key
}

/// Whether the list holds an entry for the date and model.
pub open spec fn has_entry(list: Seq<TotalsView>, key: (Seq<char>, Seq<char>)) -> bool {
    exists|i: int| 0 <= i < list.len() && (#[trigger] list[i]).key() == key
}

/// Whether the list stands in the order of date and model, each pair once.
pub open spec fn totals_sorted(list: Seq<TotalsView>) -> bool {
    forall|i: int, j: int|
        0 <= i < j < list.len() ==> pair_less((#[trigger] list[i]).key(), (
        #[trigger] list[j]).key())
}

/// Whether the list is what the tables add up to: an entry for each date and model that a row of
/// either table is for, with the totals of those rows, in the order of date and model. A metric
/// without a row has the total 0.
pub open spec fn is_aggregate(
    list: Seq<TotalsView>,
    amounts: Seq<AmountView>,
    costs: Seq<CostView>,
) -> bool {
    &&& totals_sorted(list)
    &&& forall|i: int|
        0 <= i < list.len() ==> #[trigger] list[i] == totals_for(amounts, costs, list[i].key())
            && is_named(amounts, costs, list[i].key())
    &&& forall|key: (Seq<char>, Seq<char>)| #[trigger]
        is_named(amounts, costs, key) ==> has_entry(list, key)
}

/// Whether the four totals for a date and model fit in 64 bits.
pub open spec fn key_fits(amounts: Seq<AmountView>, key: (Seq<char>, Seq<char>)) -> bool {
    &&& total_of(amounts, key, TYPE_CALLS@) <= u64::MAX
    &&& total_of(amounts, key, TYPE_HIT@) <= u64::MAX
    &&& total_of(amounts, key, TYPE_MISS@) <= u64::MAX
    &&& total_of(amounts, key, TYPE_OUTPUT@) <= u64::MAX
}

/// Whether every total fits in 64 bits.
pub open spec fn totals_fit(amounts: Seq<AmountView>) -> bool {
    forall|key: (Seq<char>, Seq<char>)| #[trigger] key_fits(amounts, key)
}

/// Whether every row has one of the four metrics.
pub open spec fn types_known(amounts: Seq<AmountView>) -> bool {
    forall|i: int| 0 <= i < amounts.len() ==> known_type((#[trigger] amounts[i]).type_)
}

/// Like `is_aggregate`, with an entry for `extra` besides, named or not.
spec fn is_aggregate_with(
    list: Seq<TotalsView>,
    amounts: Seq<AmountView>,
    costs: Seq<CostView>,
    extra: (Seq<char>, Seq<char>),
) -> bool {
    &&& totals_sorted(list)
    &&& forall|i: int|
        0 <= i < list.len() ==> #[trigger] list[i] == totals_for(amounts, costs, list[i].key()) && (
        is_named(amounts, costs, list[i].key()) || list[i].key() == extra)
    &&& forall|key: (Seq<char>, Seq<char>)| #[trigger]
        is_named(amounts, costs, key) ==> has_entry(list, key)
}

proof fn lemma_unnamed_total(amounts: Seq<AmountView>, key: (Seq<char>, Seq<char>), kind: Seq<char>)
    requires
        forall|i: int|
            0 <= i < amounts.len() ==> ((#[trigger] amounts[i]).date, amounts[i].model) != key,
    ensures
        total_of(amounts, key, kind) == 0,
    decreases amounts.len(),
{
    if amounts.len() > 0 {
        let front = amounts.drop_last();
        assert forall|i: int| 0 <= i < front.len() implies ((#[trigger] front[i]).date, front[i].model)
            != key by {
            assert(front[i] == amounts[i]);
        }
        assert(amounts[amounts.len() - 1] == amounts.last());
        lemma_unnamed_total(front, key, kind);
    }
}

proof fn lemma_unnamed_costs(costs: Seq<CostView>, key: (Seq<char>, Seq<char>))
    requires
        forall|i: int|
            0 <= i < costs.len() ==> ((#[trigger] costs[i]).date, costs[i].model) != key,
    ensures
        costs_for(costs, key) == Seq::<Seq<char>>::empty(),
    decreases costs.len(),
{
    if costs.len() > 0 {
        let front = costs.drop_last();
        assert forall|i: int| 0 <= i < front.len() implies ((#[trigger] front[i]).date, front[i].model)
            != key by {
            assert(front[i] == costs[i]);
        }
        assert(costs[costs.len() - 1] == costs.last());
        lemma_unnamed_costs(front, key);
    }
}

/// A date and model that no row is for has the totals 0.
pub proof fn lemma_unnamed_totals(
    amounts: Seq<AmountView>,
    costs: Seq<CostView>,
    key: (Seq<char>, Seq<char>),
)
    requires
        !is_named(amounts, costs, key),
    ensures
        totals_for(amounts, costs, key) == (TotalsView {
            date: key.0,
            model: key.1,
            calls: 0,
            hit_tokens: 0,
            miss_tokens: 0,
            output_tokens: 0,
            costs: Seq::empty(),
        }),
{
    lemma_unnamed_total(amounts, key, TYPE_CALLS@);
    lemma_unnamed_total(amounts, key, TYPE_HIT@);
    lemma_unnamed_total(amounts, key, TYPE_MISS@);
    lemma_unnamed_total(amounts, key, TYPE_OUTPUT@);
    lemma_unnamed_costs(costs, key);
}

proof fn lemma_total_grows(
    amounts: Seq<AmountView>,
    k: int,
    key: (Seq<char>, Seq<char>),
    kind: Seq<char>,
)
    requires
        0 <= k <= amounts.len(),
    ensures
        total_of(amounts.take(k), key, kind) <= total_of(amounts, key, kind),
    decreases amounts.len() - k,
{
    if k < amounts.len() {
        assert(amounts.take(k + 1).drop_last() =~= amounts.take(k));
        lemma_total_grows(amounts, k + 1, key, kind);
    } else {
        assert(amounts.take(k) =~= amounts);
    }
}

proof fn lemma_types_differ()
    ensures
        TYPE_HIT@ != TYPE_MISS@,
        TYPE_HIT@ != TYPE_OUTPUT@,
        TYPE_HIT@ != TYPE_CALLS@,
        TYPE_MISS@ != TYPE_OUTPUT@,
        TYPE_MISS@ != TYPE_CALLS@,
        TYPE_OUTPUT@ != TYPE_CALLS@,
{
    reveal_strlit("input_cache_hit_tokens");
    reveal_strlit("input_cache_miss_tokens");
    reveal_strlit("output_tokens");
    reveal_strlit("request_count");
    assert(TYPE_HIT@.len() == 22);
    assert(TYPE_MISS@.len() == 23);
    assert(TYPE_OUTPUT@[0] == 'o');
    assert(TYPE_CALLS@[0] == 'r');
}

/// Finds the place of a date and model in the list. Where there is none, an entry with the
/// totals 0 takes that place.
fn slot(list: &mut Vec<UsageTotals>, date: &str, model: &str) -> (at: usize)
    requires
        totals_sorted(totals_views(old(list)@)),
    ensures
        at < final(list)@.len(),
        totals_sorted(totals_views(final(list)@)),
        final(list)@[at as int]@.key() == (date@, model@),
        has_entry(totals_views(old(list)@), (date@, model@)) ==> final(list)@ == old(list)@,
        at <= old(list)@.len(),
        !has_entry(totals_views(old(list)@), (date@, model@)) ==> totals_views(final(list)@)
            == totals_views(old(list)@).insert(
            at as int,
            (TotalsView {
                date: date@,
                model: model@,
                calls: 0,
                hit_tokens: 0,
                miss_tokens: 0,
                output_tokens: 0,
                costs: Seq::empty(),
            }),
        ),
{
    let ghost before = totals_views(list@);
    let ghost key = (date@, model@);
    let mut i: usize = 0;
    let mut found_above = false;
    while i < list.len() && !found_above
        invariant
            list@ == old(list)@,
            before == totals_views(old(list)@),
            totals_sorted(before),
            key == (date@, model@),
            i <= list@.len(),
            forall|j: int| 0 <= j < i ==> pair_less((#[trigger] before[j]).key(), key),
            found_above ==> i < list@.len() && pair_less(key, before[i as int].key()),
        decreases list@.len() - i + (if found_above { 0int } else { 1int }),
    {
        proof {
            assert(before[i as int] == list@[i as int]@);
        }
        match pair_rank(list[i].date.as_str(), list[i].model.as_str(), date, model) {
            Rank::Same => {
                proof {
                    assert(before[i as int].key() == key);
                }
                return i;
            },
            Rank::Below => {
                i = i + 1;
            },
            Rank::Above => {
                found_above = true;
            },
        }
    }
    proof {
        assert forall|j: int| i <= j < before.len() implies pair_less(key, (
        #[trigger] before[j]).key()) by {
            if j > i {
                lemma_pair_order(key, before[i as int].key(), before[j].key());
            }
        }
        assert forall|j: int| 0 <= j < before.len() implies (#[trigger] before[j]).key() != key by {
            lemma_pair_order(key, key, key);
        }
    }
    let entry = UsageTotals {
        date: date.to_owned(),
        model: model.to_owned(),
        calls: 0,
        hit_tokens: 0,
        miss_tokens: 0,
        output_tokens: 0,
        costs: Vec::new(),
    };
    proof {
        assert(texts(entry.costs@) =~= Seq::<Seq<char>>::empty());
        let after = before.insert(i as int, entry@);
        assert(totals_views(list@.insert(i as int, entry)) =~= after);
        assert forall|a: int, b: int| 0 <= a < b < after.len() implies pair_less(
            (#[trigger] after[a]).key(),
            (#[trigger] after[b]).key(),
        ) by {
            if a < i {
                assert(after[a] == before[a]);
            } else if a > i {
                assert(after[a] == before[a - 1]);
            }
            if b < i {
                assert(after[b] == before[b]);
            } else if b > i {
                assert(after[b] == before[b - 1]);
            }
        }
    }
    list.insert(i, entry);
    i
}

proof fn lemma_slot(
    before: Seq<TotalsView>,
    after: Seq<TotalsView>,
    at: int,
    amounts: Seq<AmountView>,
    costs: Seq<CostView>,
    key: (Seq<char>, Seq<char>),
)
    requires
        is_aggregate(before, amounts, costs),
        0 <= at < after.len(),
        at <= before.len(),
        totals_sorted(after),
        after[at].key() == key,
        has_entry(before, key) ==> after == before,
        !has_entry(before, key) ==> after == before.insert(
            at,
            (TotalsView {
                date: key.0,
                model: key.1,
                calls: 0,
                hit_tokens: 0,
                miss_tokens: 0,
                output_tokens: 0,
                costs: Seq::empty(),
            }),
        ),
    ensures
        is_aggregate_with(after, amounts, costs, key),
{
    if !has_entry(before, key) {
        lemma_unnamed_totals(amounts, costs, key);
        assert forall|i: int| 0 <= i < after.len() implies #[trigger] after[i] == totals_for(
            amounts,
            costs,
            after[i].key(),
        ) && (is_named(amounts, costs, after[i].key()) || after[i].key() == key) by {
            if i < at {
                assert(after[i] == before[i]);
            } else if i > at {
                assert(after[i] == before[i - 1]);
            }
        }
        assert forall|k: (Seq<char>, Seq<char>)| #[trigger]
            is_named(amounts, costs, k) implies has_entry(after, k) by {
            let i = choose|i: int| 0 <= i < before.len() && (#[trigger] before[i]).key() == k;
            if i < at {
                assert(after[i] == before[i]);
            } else {
                assert(after[i + 1] == before[i]);
            }
        }
    }
}

/// Changing the entry at `at` to the totals with one row more makes the list the aggregate with
/// that row.
proof fn lemma_step(
    list: Seq<TotalsView>,
    at: int,
    amounts: Seq<AmountView>,
    costs: Seq<CostView>,
    amounts2: Seq<AmountView>,
    costs2: Seq<CostView>,
    key: (Seq<char>, Seq<char>),
)
    requires
        is_aggregate_with(list, amounts, costs, key),
        0 <= at < list.len(),
        list[at].key() == key,
        forall|k: (Seq<char>, Seq<char>)|
            k != key ==> #[trigger] totals_for(amounts2, costs2, k) == totals_for(
                amounts,
                costs,
                k,
            ),
        forall|k: (Seq<char>, Seq<char>)| #[trigger]
            is_named(amounts2, costs2, k) <==> (is_named(amounts, costs, k) || k == key),
    ensures
        is_aggregate(list.update(at, totals_for(amounts2, costs2, key)), amounts2, costs2),
{
    let after = list.update(at, totals_for(amounts2, costs2, key));
    assert forall|i: int, j: int| 0 <= i < j < after.len() implies pair_less(
        (#[trigger] after[i]).key(),
        (#[trigger] after[j]).key(),
    ) by {
        assert(after[i].key() == list[i].key());
        assert(after[j].key() == list[j].key());
    }
    assert forall|i: int| 0 <= i < after.len() implies #[trigger] after[i] == totals_for(
        amounts2,
        costs2,
        after[i].key(),
    ) && is_named(amounts2, costs2, after[i].key()) by {
        if i != at {
            assert(after[i] == list[i]);
            lemma_pair_order(key, key, key);
            if i < at {
                assert(pair_less(list[i].key(), list[at].key()));
            } else {
                assert(pair_less(list[at].key(), list[i].key()));
            }
            assert(list[i].key() != key);
        }
    }
    assert forall|k: (Seq<char>, Seq<char>)| #[trigger]
        is_named(amounts2, costs2, k) implies has_entry(after, k) by {
        if k == key {
            assert(after[at].key() == key);
        } else {
            let i = choose|i: int| 0 <= i < list.len() && (#[trigger] list[i]).key() == k;
            assert(after[i].key() == k);
        }
    }
}

proof fn lemma_named_amount(amounts: Seq<AmountView>, costs: Seq<CostView>, r: AmountView)
    ensures
        forall|k: (Seq<char>, Seq<char>)| #[trigger]
            is_named(amounts.push(r), costs, k) <==> (is_named(amounts, costs, k) || k == (
                r.date,
                r.model,
            )),
{
    let more = amounts.push(r);
    assert forall|k: (Seq<char>, Seq<char>)| #[trigger]
        is_named(more, costs, k) <==> (is_named(amounts, costs, k) || k == (r.date, r.model)) by {
        if exists|i: int|
            0 <= i < amounts.len() && ((#[trigger] amounts[i]).date, amounts[i].model) == k {
            let i = choose|i: int|
                0 <= i < amounts.len() && ((#[trigger] amounts[i]).date, amounts[i].model) == k;
            assert(more[i] == amounts[i]);
        }
        if k == (r.date, r.model) {
            assert(more[amounts.len() as int] == r);
        }
        if exists|i: int| 0 <= i < more.len() && ((#[trigger] more[i]).date, more[i].model) == k {
            let i = choose|i: int|
                0 <= i < more.len() && ((#[trigger] more[i]).date, more[i].model) == k;
            if i < amounts.len() {
                assert(more[i] == amounts[i]);
            }
        }
    }
}

proof fn lemma_named_cost(amounts: Seq<AmountView>, costs: Seq<CostView>, r: CostView)
    ensures
        forall|k: (Seq<char>, Seq<char>)| #[trigger]
            is_named(amounts, costs.push(r), k) <==> (is_named(amounts, costs, k) || k == (
                r.date,
                r.model,
            )),
{
    let more = costs.push(r);
    assert forall|k: (Seq<char>, Seq<char>)| #[trigger]
        is_named(amounts, more, k) <==> (is_named(amounts, costs, k) || k == (r.date, r.model)) by {
        if exists|i: int|
            0 <= i < costs.len() && ((#[trigger] costs[i]).date, costs[i].model) == k {
            let i = choose|i: int|
                0 <= i < costs.len() && ((#[trigger] costs[i]).date, costs[i].model) == k;
            assert(more[i] == costs[i]);
        }
        if k == (r.date, r.model) {
            assert(more[costs.len() as int] == r);
        }
        if exists|i: int| 0 <= i < more.len() && ((#[trigger] more[i]).date, more[i].model) == k {
            let i = choose|i: int|
                0 <= i < more.len() && ((#[trigger] more[i]).date, more[i].model) == k;
            if i < costs.len() {
                assert(more[i] == costs[i]);
            }
        }
    }
}

/// Adds a row of the amount table to an entry; nothing where the sum exceeds 64 bits.
fn add_amount(entry: &mut UsageTotals, type_: &str, amount: u64) -> (fits: bool)
    requires
        known_type(type_@),
    ensures
        final(entry)@.key() == old(entry)@.key(),
        fits ==> ({
            let was = old(entry)@;
            let now = final(entry)@;
            let n = amount as nat;
            &&& now.costs == was.costs
            &&& now.calls == was.calls + if type_@ == TYPE_CALLS@ { n } else { 0 }
            &&& now.hit_tokens == was.hit_tokens + if type_@ == TYPE_HIT@ { n } else { 0 }
            &&& now.miss_tokens == was.miss_tokens + if type_@ == TYPE_MISS@ { n } else { 0 }
            &&& now.output_tokens == was.output_tokens + if type_@ == TYPE_OUTPUT@ { n } else { 0 }
        }),
        !fits ==> ({
            let was = old(entry)@;
            ||| type_@ == TYPE_CALLS@ && was.calls + amount > u64::MAX
            ||| type_@ == TYPE_HIT@ && was.hit_tokens + amount > u64::MAX
            ||| type_@ == TYPE_MISS@ && was.miss_tokens + amount > u64::MAX
            ||| type_@ == TYPE_OUTPUT@ && was.output_tokens + amount > u64::MAX
        }),
{
    proof {
        lemma_types_differ();
    }
    let held: u64 = if text_eq(type_, TYPE_HIT) {
        entry.hit_tokens
    } else if text_eq(type_, TYPE_MISS) {
        entry.miss_tokens
    } else if text_eq(type_, TYPE_OUTPUT) {
        entry.output_tokens
    } else {
        entry.calls
    };
    match held.checked_add(amount) {
        None => false,
        Some(sum) => {
            if text_eq(type_, TYPE_HIT) {
                entry.hit_tokens = sum;
            } else if text_eq(type_, TYPE_MISS) {
                entry.miss_tokens = sum;
            } else if text_eq(type_, TYPE_OUTPUT) {
                entry.output_tokens = sum;
            } else {
                entry.calls = sum;
            }
            true
        },
    }
}

/// Adds up the rows of both tables by date and model. Nothing comes back where a total exceeds
/// 64 bits.
pub fn aggregate(amount_rows: Vec<AmountLine>, cost_rows: Vec<CostLine>) -> (r: Option<
    Vec<UsageTotals>,
>)
    requires
        types_known(amount_views(amount_rows@)),
    ensures
        r is Some <==> totals_fit(amount_views(amount_rows@)),
        r matches Some(list) ==> is_aggregate(
            totals_views(list@),
            amount_views(amount_rows@),
            cost_views(cost_rows@),
        ),
{
    let ghost amounts = amount_views(amount_rows@);
    let ghost costs = cost_views(cost_rows@);
    let ghost none = Seq::<CostView>::empty();
    let mut list: Vec<UsageTotals> = Vec::new();
    let mut i: usize = 0;
    proof {
        assert(amounts.take(0) =~= Seq::empty());
        assert(totals_views(list@) =~= Seq::empty());
    }
    while i < amount_rows.len()
        invariant
            amounts == amount_views(amount_rows@),
            types_known(amounts),
            none == Seq::<CostView>::empty(),
            i <= amount_rows@.len(),
            is_aggregate(totals_views(list@), amounts.take(i as int), none),
        decreases amount_rows@.len() - i,
    {
        let row = &amount_rows[i];
        let ghost r = amounts[i as int];
        let ghost key = (r.date, r.model);
        let ghost seen = amounts.take(i as int);
        let ghost before = totals_views(list@);
        let at = slot(&mut list, row.date.as_str(), row.model.as_str());
        let ghost mid = totals_views(list@);
        proof {
            assert(r == row@);
            assert(mid[at as int] == list@[at as int]@);
            lemma_slot(before, mid, at as int, seen, none, key);
            assert(amounts.take(i + 1) =~= seen.push(r));
            assert(seen.push(r).drop_last() =~= seen);
        }
        let mut entry = list.remove(at);
        let ghost was = entry@;
        let fits = add_amount(&mut entry, row.type_.as_str(), row.amount);
        if !fits {
            proof {
                assert(was == totals_for(seen, none, key));
                lemma_total_grows(amounts, i + 1, key, TYPE_CALLS@);
                lemma_total_grows(amounts, i + 1, key, TYPE_HIT@);
                lemma_total_grows(amounts, i + 1, key, TYPE_MISS@);
                lemma_total_grows(amounts, i + 1, key, TYPE_OUTPUT@);
                assert(!key_fits(amounts, key));
            }
            return None;
        }
        let ghost now = entry@;
        list.insert(at, entry);
        proof {
            assert(now == totals_for(seen.push(r), none, key));
            assert(totals_views(list@) =~= mid.update(at as int, now));
            lemma_named_amount(seen, none, r);
            assert forall|k: (Seq<char>, Seq<char>)| k != key implies #[trigger] totals_for(
                seen.push(r),
                none,
                k,
            ) == totals_for(seen, none, k) by {}
            lemma_step(mid, at as int, seen, none, seen.push(r), none, key);
        }
        i = i + 1;
    }
    proof {
        assert(amounts.take(i as int) =~= amounts);
        let views = totals_views(list@);
        assert forall|key: (Seq<char>, Seq<char>)| #[trigger] key_fits(amounts, key) by {
            if is_named(amounts, none, key) {
                let k = choose|k: int| 0 <= k < views.len() && (#[trigger] views[k]).key() == key;
                assert(views[k] == list@[k]@);
            } else {
                lemma_unnamed_totals(amounts, none, key);
            }
        }
        assert(costs.take(0) =~= none);
    }
    let mut j: usize = 0;
    while j < cost_rows.len()
        invariant
            costs == cost_views(cost_rows@),
            j <= cost_rows@.len(),
            is_aggregate(totals_views(list@), amounts, costs.take(j as int)),
        decreases cost_rows@.len() - j,
    {
        let row = &cost_rows[j];
        let ghost r = costs[j as int];
        let ghost key = (r.date, r.model);
        let ghost seen = costs.take(j as int);
        let ghost before = totals_views(list@);
        let at = slot(&mut list, row.date.as_str(), row.model.as_str());
        let ghost mid = totals_views(list@);
        proof {
            assert(r == row@);
            assert(mid[at as int] == list@[at as int]@);
            lemma_slot(before, mid, at as int, amounts, seen, key);
            assert(costs.take(j + 1) =~= seen.push(r));
            assert(seen.push(r).drop_last() =~= seen);
        }
        let mut entry = list.remove(at);
        let ghost was = entry@;
        let ghost held = entry.costs@;
        entry.costs.push(row.cost.clone());
        let ghost now = entry@;
        proof {
            assert(texts(entry.costs@) =~= texts(held).push(r.cost));
        }
        list.insert(at, entry);
        proof {
            assert(now == totals_for(amounts, seen.push(r), key));
            assert(totals_views(list@) =~= mid.update(at as int, now));
            lemma_named_cost(amounts, seen, r);
            assert forall|k: (Seq<char>, Seq<char>)| k != key implies #[trigger] totals_for(
                amounts,
                seen.push(r),
                k,
            ) == totals_for(amounts, seen, k) by {}
            lemma_step(mid, at as int, amounts, seen, amounts, seen.push(r), key);
        }
        j = j + 1;
    }
    proof {
        assert(costs.take(j as int) =~= costs);
    }
    Some(list)
}

proof fn lemma_no_row_no_total(
    amounts: Seq<AmountView>,
    key: (Seq<char>, Seq<char>),
    kind: Seq<char>,
)
    requires
        forall|i: int|
            0 <= i < amounts.len() ==> !(((#[trigger] amounts[i]).date, amounts[i].model) == key
                && amounts[i].type_ == kind),
    ensures
        total_of(amounts, key, kind) == 0,
    decreases amounts.len(),
{
    if amounts.len() > 0 {
        let front = amounts.drop_last();
        assert forall|i: int| 0 <= i < front.len() implies !(((#[trigger] front[i]).date,
        front[i].model) == key && front[i].type_ == kind) by {
            assert(front[i] == amounts[i]);
        }
        lemma_no_row_no_total(front, key, kind);
        assert(amounts[amounts.len() - 1] == amounts.last());
    }
}

/// A date and model that either table names has an entry even where the platform left out the row
/// for tokens read from the cache: that number is then 0.
pub proof fn law_left_out_hits_are_zero(
    list: Seq<TotalsView>,
    amounts: Seq<AmountView>,
    costs: Seq<CostView>,
    key: (Seq<char>, Seq<char>),
)
    requires
        is_aggregate(list, amounts, costs),
        is_named(amounts, costs, key),
        forall|i: int|
            0 <= i < amounts.len() ==> !(((#[trigger] amounts[i]).date, amounts[i].model) == key
                && amounts[i].type_ == TYPE_HIT@),
    ensures
        exists|i: int|
            0 <= i < list.len() && (#[trigger] list[i]).key() == key && list[i].hit_tokens == 0,
{
    lemma_no_row_no_total(amounts, key, TYPE_HIT@);
    assert(has_entry(list, key));
    let i = choose|i: int| 0 <= i < list.len() && (#[trigger] list[i]).key() == key;
    assert(list[i] == totals_for(amounts, costs, key));
}

/// The entries are fixed by the tables: two lists that the same tables add up to are the same.
pub proof fn law_aggregate_is_unique(
    a: Seq<TotalsView>,
    b: Seq<TotalsView>,
    amounts: Seq<AmountView>,
    costs: Seq<CostView>,
)
    requires
        is_aggregate(a, amounts, costs),
        is_aggregate(b, amounts, costs),
    ensures
        a == b,
    decreases a.len() + b.len(),
{
    lemma_sorted_same_keys(a, b);
    assert forall|i: int| 0 <= i < a.len() implies a[i] == b[i] by {
        assert(a[i] == totals_for(amounts, costs, a[i].key()));
        assert(b[i] == totals_for(amounts, costs, b[i].key()));
    }
    assert(a =~= b);
}

proof fn lemma_sorted_same_keys(a: Seq<TotalsView>, b: Seq<TotalsView>)
    requires
        totals_sorted(a),
        totals_sorted(b),
        forall|i: int| 0 <= i < a.len() ==> has_entry(b, (#[trigger] a[i]).key()),
        forall|i: int| 0 <= i < b.len() ==> has_entry(a, (#[trigger] b[i]).key()),
    ensures
        a.len() == b.len(),
        forall|i: int| 0 <= i < a.len() ==> (#[trigger] a[i]).key() == b[i].key(),
    decreases a.len(),
{
    if a.len() > 0 {
        let m = a.len() - 1;
        assert(has_entry(b, a[m].key()));
        let k = choose|k: int| 0 <= k < b.len() && (#[trigger] b[k]).key() == a[m].key();
        let n = b.len() - 1;
        assert(has_entry(a, b[n].key()));
        let j = choose|j: int| 0 <= j < a.len() && (#[trigger] a[j]).key() == b[n].key();
        if k < n {
            assert(pair_less(b[k].key(), b[n].key()));
            if j < m {
                assert(pair_less(a[j].key(), a[m].key()));
            }
            lemma_pair_order(a[m].key(), b[n].key(), a[m].key());
        }
        assert(k == n);
        let a1 = a.drop_last();
        let b1 = b.drop_last();
        assert forall|i: int| 0 <= i < a1.len() implies has_entry(b1, (#[trigger] a1[i]).key()) by {
            assert(a[i] == a1[i]);
            assert(pair_less(a[i].key(), a[m].key()));
            assert(has_entry(b, a[i].key()));
            let x = choose|x: int| 0 <= x < b.len() && (#[trigger] b[x]).key() == a[i].key();
            lemma_pair_order(a[i].key(), a[m].key(), a[m].key());
            assert(x != n);
            assert(b1[x] == b[x]);
        }
        assert forall|i: int| 0 <= i < b1.len() implies has_entry(a1, (#[trigger] b1[i]).key()) by {
            assert(b[i] == b1[i]);
            assert(pair_less(b[i].key(), b[n].key()));
            assert(has_entry(a, b[i].key()));
            let x = choose|x: int| 0 <= x < a.len() && (#[trigger] a[x]).key() == b[i].key();
            lemma_pair_order(b[i].key(), b[n].key(), b[n].key());
            assert(x != m);
            assert(a1[x] == a[x]);
        }
        lemma_sorted_same_keys(a1, b1);
        assert forall|i: int| 0 <= i < a.len() implies (#[trigger] a[i]).key() == b[i].key() by {
            if i < m {
                assert(a1[i].key() == b1[i].key());
            }
        }
    } else if b.len() > 0 {
        assert(has_entry(a, b[0].key()));
    }
}

} // verus!
