//! Laws of what values say: each part says what it holds, and nothing is left out.
use vstd::prelude::*;

use crate::backup::BackupFile;
use crate::deepseek::balance_texts;
use crate::engine::{option_texts, PushJob, SaveAction, SaveActionView};
use crate::import::dated_views;
use crate::json::{opt_bool, opt_int, opt_text, opt_view, Json, JsonView};
use crate::order::text_less;
use crate::snapshot::{model_views, CacheSummary, ModelUsage, Signature, Snapshot};
use crate::state::{
    option_balance, rows_of, usage_views, BalanceInfo, DataFile, DayModelUsage, DeviceLink,
    PushRecord, Settings,
};
use crate::tables::{
    amount_views, cost_views, header_view, row_view, row_views, AmountLine, CostLine, CsvFault,
    CsvRow, ImportError, ImportErrorView,
};
use crate::text::{digits, option_text, texts};
use crate::ui::{element_views, prop_views, Element, Panel, Prop, PropView};
use crate::usage::{totals_views, UsageTotals};

verus! {

/// Settings say every setting.
pub proof fn law_settings_say(s: Settings)
    ensures
        s@.api_key == s.api_key@,
        s@.platform_token == s.platform_token@,
        s@.base_url == s.base_url@,
        s@.platform_base == s.platform_base@,
        s@.provider == s.provider@,
        s@.push_pkg == s.push_pkg@,
        s@.push_interval_secs == s.push_interval_secs,
        s@.balance_interval_secs == s.balance_interval_secs,
        s@.export_interval_secs == s.export_interval_secs,
{
}

/// A balance says its amounts, its currency and its time.
pub proof fn law_balance_says<M>(b: BalanceInfo<M>, t: BalanceInfo<String>)
    ensures
        b@.total == b.total,
        b@.top_up == b.top_up,
        b@.granted == b.granted,
        b@.currency == b.currency@,
        b@.checked_at == b.checked_at,
        option_balance(Some(b)) == Some(b@),
        option_balance(None::<BalanceInfo<M>>) is None,
        balance_texts(None) is None,
        balance_texts(Some(t)) matches Some(v) && v.total == t.total@ && v.top_up == option_text(
            t.top_up,
        ) && v.granted == option_text(t.granted) && v.currency == t.currency@ && v.checked_at
            == t.checked_at,
{
}

/// A row of usage says its model and its numbers, wherever it stands.
pub proof fn law_usage_says<M>(
    u: DayModelUsage<M>,
    m: ModelUsage<M>,
    rows: Seq<DayModelUsage<M>>,
    models: Seq<ModelUsage<M>>,
    dated: Seq<(String, DayModelUsage<M>)>,
    i: int,
)
    ensures
        u@.model == u.model@,
        u@.calls == u.calls,
        u@.hit_tokens == u.hit_tokens,
        u@.miss_tokens == u.miss_tokens,
        u@.output_tokens == u.output_tokens,
        u@.cost == u.cost,
        m@.model == m.model@,
        m@.calls == m.calls,
        m@.hit_tokens == m.hit_tokens,
        m@.miss_tokens == m.miss_tokens,
        m@.output_tokens == m.output_tokens,
        m@.cost == m.cost,
        usage_views(rows).len() == rows.len(),
        0 <= i < rows.len() ==> usage_views(rows)[i] == rows[i]@,
        model_views(models).len() == models.len(),
        0 <= i < models.len() ==> model_views(models)[i] == models[i]@,
        dated_views(dated).len() == dated.len(),
        0 <= i < dated.len() ==> dated_views(dated)[i] == (dated[i].0@, dated[i].1@),
{
}

/// Data say their days in order, their balance and their last import; the usage by date holds the
/// rows of each day under its date and nothing else.
pub proof fn law_data_say<M>(data: DataFile<M>, i: int, date: Seq<char>)
    requires
        data.wf(),
    ensures
        data@.days.len() == data.days@.len(),
        0 <= i < data.days@.len() ==> data@.days[i] == (
            data.days@[i].date@,
            usage_views(data.days@[i].rows@),
        ),
        data@.balance == option_balance(data.balance),
        data@.last_import_at == data.last_import_at,
        0 <= i < data.days@.len() ==> data.usage().dom().contains(data.days@[i].date@)
            && data.usage()[data.days@[i].date@] == usage_views(data.days@[i].rows@),
        data.usage().dom().contains(date) ==> exists|k: int|
            0 <= k < data.days@.len() && (#[trigger] data.days@[k]).date@ == date,
        0 <= i < data.days@.len() - 1 ==> text_less(data.days@[i].date@, data.days@[i + 1].date@),
        data.usage().dom().contains(date) ==> rows_of(data.usage(), date) == data.usage()[date],
        !data.usage().dom().contains(date) ==> rows_of(data.usage(), date).len() == 0,
{
    if 0 <= i < data.days@.len() {
        crate::state::lemma_day_map(data.days@, i);
    }
    if data.usage().dom().contains(date) {
        let k = choose|k: int| crate::state::day_at(data.days@, date, k);
        assert(data.days@[k].date@ == date);
    }
}

/// A snapshot and its signature say every part of them.
pub proof fn law_snapshots_say<M>(s: Snapshot<M>, g: Signature<M>, c: CacheSummary)
    ensures
        s@.v == s.v,
        s@.generated_at == s.generated_at,
        s@.provider == s.provider@,
        s@.balance == option_balance(s.balance),
        s@.cache == s.cache@,
        s@.models == model_views(s.models@),
        s@.freshness == s.freshness@,
        g@.provider == g.provider@,
        g@.balance == option_balance(g.balance),
        g@.cache == g.cache@,
        g@.models == model_views(g.models@),
        c@.date == c.date@,
        c@.hit_rate == c.hit_rate,
        c@.hit_tokens == c.hit_tokens,
        c@.miss_tokens == c.miss_tokens,
{
}

/// A backup says every part of it.
pub proof fn law_backups_say<M>(f: BackupFile<M>)
    ensures
        f@.kind == f.kind@,
        f@.version == f.version,
        f@.exported_at == f.exported_at,
        f@.settings == f.settings@,
        f@.data == f.data@,
{
}

/// Rows of the tables, totals, and rows as they were read say every part of them.
pub proof fn law_rows_say(
    a: AmountLine,
    c: CostLine,
    t: UsageTotals,
    r: CsvRow,
    f: CsvFault,
    amounts: Seq<AmountLine>,
    costs: Seq<CostLine>,
    list: Seq<UsageTotals>,
    rows: Seq<Result<CsvRow, CsvFault>>,
    header: Vec<String>,
    i: int,
)
    ensures
        a@.date == a.date@ && a@.model == a.model@ && a@.type_ == a.type_@ && a@.amount == a.amount,
        c@.date == c.date@ && c@.model == c.model@ && c@.cost == c.cost@,
        t@.date == t.date@ && t@.model == t.model@ && t@.calls == t.calls && t@.hit_tokens
            == t.hit_tokens && t@.miss_tokens == t.miss_tokens && t@.output_tokens
            == t.output_tokens && t@.costs == texts(t.costs@),
        t@.key() == (t.date@, t.model@),
        r@.line == r.line && r@.fields == texts(r.fields@),
        f@.line == f.line && f@.message == f.message@,
        row_view(Ok(r)) == Ok::<crate::tables::RowView, crate::tables::FaultView>(r@),
        row_view(Err(f)) == Err::<crate::tables::RowView, crate::tables::FaultView>(f@),
        header_view(Ok(header)) == Ok::<Seq<Seq<char>>, crate::tables::FaultView>(texts(header@)),
        header_view(Err(f)) == Err::<Seq<Seq<char>>, crate::tables::FaultView>(f@),
        amount_views(amounts).len() == amounts.len() && (0 <= i < amounts.len() ==> amount_views(
            amounts,
        )[i] == amounts[i]@),
        cost_views(costs).len() == costs.len() && (0 <= i < costs.len() ==> cost_views(costs)[i]
            == costs[i]@),
        totals_views(list).len() == list.len() && (0 <= i < list.len() ==> totals_views(list)[i]
            == list[i]@),
        row_views(rows).len() == rows.len() && (0 <= i < rows.len() ==> row_views(rows)[i]
            == row_view(rows[i])),
{
}

/// Lists of texts say each text in its place.
pub proof fn law_texts_say(v: Seq<String>, s: String, list: Vec<String>, i: int)
    ensures
        texts(v).len() == v.len(),
        0 <= i < v.len() ==> texts(v)[i] == v[i]@,
        option_text(Some(s)) == Some(s@),
        option_text(None) is None,
        option_texts(Some(list)) == Some(texts(list@)),
        option_texts(None) is None,
{
}

/// An import error says its kind and its parts, and reads as its kind does.
pub proof fn law_import_errors_say(m: String, f: &'static str, w: &'static str, n: u64)
    ensures
        ImportError::Zip(m)@ == ImportErrorView::Zip(m@),
        ImportError::MissingCsv(f)@ == ImportErrorView::MissingCsv(f@),
        ImportError::BadHeader(w, m)@ == ImportErrorView::BadHeader(w@, m@),
        ImportError::BadLine(w, n, m)@ == ImportErrorView::BadLine(w@, n, m@),
        ImportError::UnknownType(m)@ == ImportErrorView::UnknownType(m@),
        ImportError::Encoding@ == ImportErrorView::Encoding,
        ImportError::EmptyData@ == ImportErrorView::EmptyData,
        ImportErrorView::Zip(m@).message() == "zip 解析失败: "@ + m@,
        ImportErrorView::MissingCsv(f@).message() == "缺少文件: "@ + f@ + "(zip 中未找到)"@,
        ImportErrorView::BadHeader(w@, m@).message() == w@ + " 表头不符合预期: "@ + m@,
        ImportErrorView::BadLine(w@, n, m@).message() == w@ + " 第 "@ + digits(n as nat) + " 行: "@
            + m@,
        ImportErrorView::UnknownType(m@).message() == "未知指标类型: "@ + m@
            + "(平台格式可能已变更)"@,
        ImportErrorView::Encoding.message() == "文件编码非 UTF-8"@,
        ImportErrorView::EmptyData.message() == "CSV 无有效数据行"@,
{
}

/// A push, the last push, and the connected device say every part of them.
pub proof fn law_pushes_say(j: PushJob, r: PushRecord, l: DeviceLink)
    ensures
        j@.addr == j.addr@ && j@.pkg == j.pkg@ && j@.signature == j.signature@ && j@.size == j.size,
        r@.at == r.at && r@.signature == option_text(r.signature) && r@.device == option_text(
            r.device,
        ),
        l@.addr == option_text(l.addr) && l@.recv_registered == l.recv_registered,
{
}

/// What comes next while a backup is written says its bytes or its text.
pub proof fn law_save_actions_say(piece: Vec<u8>, abort: bool, status: String)
    ensures
        SaveAction::Write(piece)@ == SaveActionView::Write(piece@),
        SaveAction::Finish@ == SaveActionView::Finish,
        SaveAction::Stop(abort, status)@ == SaveActionView::Stop(abort, status@),
{
}

/// Elements and panels say every part of them, in order.
pub proof fn law_elements_say(
    e: Element,
    p: Panel,
    props: Seq<Prop>,
    elements: Seq<Element>,
    n: u32,
    color: &'static str,
    event: crate::ui::UiEvent,
    i: int,
)
    ensures
        e@.kind == e.kind && e@.text == e.text@ && e@.props == prop_views(e.props@),
        p@.props == prop_views(p.props@) && p@.children == element_views(p.children@),
        prop_views(props).len() == props.len() && (0 <= i < props.len() ==> prop_views(props)[i]
            == props[i]@),
        element_views(elements).len() == elements.len() && (0 <= i < elements.len()
            ==> element_views(elements)[i] == elements[i]@),
        Prop::Size(n)@ == PropView::Size(n),
        Prop::Margin(n)@ == PropView::Margin(n),
        Prop::Padding(n)@ == PropView::Padding(n),
        Prop::Radius(n)@ == PropView::Radius(n),
        Prop::Border(n, color)@ == PropView::Border(n, color@),
        Prop::Background(color)@ == PropView::Background(color@),
        Prop::TextColor(color)@ == PropView::TextColor(color@),
        Prop::WidthFull@ == PropView::WidthFull,
        Prop::Flex@ == PropView::Flex,
        Prop::Column@ == PropView::Column,
        Prop::On(event, color)@ == PropView::On(event, color@),
{
}

/// A JSON value says what it holds, its parts in order; it is a boolean, a text or an integer only
/// where it holds one.
pub proof fn law_json_says(
    b: bool,
    s: String,
    n: crate::json::JsonNumber,
    list: Vec<Json>,
    fields: Vec<(String, Json)>,
    v: JsonView,
    i: int,
)
    ensures
        Json::Null@ == JsonView::Null,
        Json::Bool(b)@ == JsonView::Bool(b),
        Json::Number(n)@ == JsonView::Number(n.integer, n.text@),
        Json::Text(s)@ == JsonView::Text(s@),
        Json::List(list)@ matches JsonView::List(parts) && parts.len() == list@.len() && (0 <= i
            < list@.len() ==> parts[i] == list@[i]@),
        Json::Object(fields)@ matches JsonView::Object(parts) && parts.len() == fields@.len() && (0
            <= i < fields@.len() ==> parts[i] == (fields@[i].0@, fields@[i].1@)),
        opt_bool(Some(JsonView::Bool(b))) == Some(b),
        opt_text(Some(JsonView::Text(s@))) == Some(s@),
        opt_int(Some(JsonView::Number(n.integer, n.text@))) == n.integer,
        !(v is Bool) ==> opt_bool(Some(v)) is None,
        !(v is Text) ==> opt_text(Some(v)) is None,
        !(v is Number) ==> opt_int(Some(v)) is None,
        opt_bool(None) is None && opt_text(None) is None && opt_int(None) is None,
        opt_view(None) is None,
        opt_view(Some(&list@[i])) == Some(list@[i]@),
{
}

} // verus!
