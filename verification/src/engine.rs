//! The plugin's decisions: timers, events, the connected device, pushes, backups and fetches.
//!
//! What the host has to do (set a timer, send a message, open a dialog) is left to the caller:
//! each function takes what the host reported and says what comes next, and what the user reads.
use vstd::prelude::*;
use vstd::slice::{slice_subrange, slice_to_vec};
use vstd::string::*;

use crate::dates::local_day;
use crate::json::{json_document, opt_text, read_json, text_of, Json, JsonView};
use crate::snapshot::{
    checked_snapshot_at, day_fits, law_signature_stays_within_a_day, signature_of, snapshot_of,
    stable_signature, today, Signature, SignatureView, Snapshot,
};
use crate::state::{
    option_balance, rows_of, AppState, BalanceInfo, BalanceView, DataFile, DayMap, DeviceLink,
    PushRecord, Settings, SettingsView,
};
use crate::text::{
    copy_option_text, digits, i64_text, int_text, option_text, option_text_is, text_eq, texts,
    usize_text,
};

verus! {

/// The id of the card on the device page.
pub const CARD_ID: &'static str = "deepseek-usage-card";

/// The name of the card.
pub const CARD_NAME: &'static str = "DeepSeek 用量";

/// One action on the band may send several messages; those that come within so many seconds of
/// one that was answered are not answered.
pub const INTERCONNECT_DEDUP_SECS: i64 = 3;

/// Milliseconds between two rounds of housekeeping.
pub const HOUSEKEEPING_MS: u64 = 30_000;

/// The number of days that are exported.
pub const EXPORT_DAYS: i64 = 30;

/// The size of the pieces in which a backup is written.
pub const CHUNK_BYTES: usize = 65_536;

/// `head` and `tail` in one text.
fn joined(head: &str, tail: &str) -> (text: String)
    ensures
        text@ == head@ + tail@,
{
    let mut text = head.to_owned();
    text.append(tail);
    text
}

/// What the user reads once the plugin has started.
pub open spec fn startup_text(addr: Option<Seq<char>>, recv_registered: bool) -> Seq<char> {
    if addr is None {
        "插件已启动:未连接设备"@
    } else if !recv_registered {
        "插件已启动:互联接收未注册成功(检查权限,housekeeping 会重试)"@
    } else {
        "插件已启动:等待手环快应用打开并发送消息"@
    }
}

/// What the user reads once the plugin has started.
pub fn startup_status(link: &DeviceLink) -> (status: &'static str)
    ensures
        status@ == startup_text(option_text(link.addr), link.recv_registered),
{
    if link.addr.is_none() {
        "插件已启动:未连接设备"
    } else if !link.recv_registered {
        "插件已启动:互联接收未注册成功(检查权限,housekeeping 会重试)"
    } else {
        "插件已启动:等待手环快应用打开并发送消息"
    }
}

/// Seconds in milliseconds, as far as 64 bits reach.
pub open spec fn millis_of(secs: u64) -> u64 {
    if secs * 1000 > u64::MAX {
        u64::MAX
    } else {
        (secs * 1000) as u64
    }
}

fn millis(secs: u64) -> (ms: u64)
    ensures
        ms == millis_of(secs),
{
    match secs.checked_mul(1000) {
        Some(ms) => ms,
        None => u64::MAX,
    }
}

/// The timers that the settings ask for, each with its interval in milliseconds. An export
/// interval of 0 asks for no export timer.
pub open spec fn timers_for(settings: SettingsView) -> Seq<(Seq<char>, u64)> {
    let push = ("push"@, millis_of(settings.push_interval_secs));
    let balance = ("balance"@, millis_of(settings.balance_interval_secs));
    let export = ("export"@, millis_of(settings.export_interval_secs));
    let housekeeping = ("housekeeping"@, HOUSEKEEPING_MS);
    if settings.export_interval_secs > 0 {
        seq![push, balance, export, housekeeping]
    } else {
        seq![push, balance, housekeeping]
    }
}

/// The timers that the settings ask for.
pub fn timer_plan(settings: &Settings) -> (plan: Vec<(&'static str, u64)>)
    ensures
        plan@.map_values(|t: (&'static str, u64)| (t.0@, t.1)) == timers_for(settings@),
{
    let export_ms: u64 = millis(settings.export_interval_secs);
    let mut plan: Vec<(&'static str, u64)> = Vec::new();
    plan.push(("push", millis(settings.push_interval_secs)));
    plan.push(("balance", millis(settings.balance_interval_secs)));
    if export_ms > 0 {
        plan.push(("export", export_ms));
    }
    plan.push(("housekeeping", HOUSEKEEPING_MS));
    plan
}

/// The kinds of events that the host dispatches.
#[derive(Debug, Clone, Copy, PartialEq, Eq, Structural)]
pub enum EventKind {
    Timer,
    InterconnectMessage,
    Other,
}

/// What an event asks for.
#[derive(Debug, Clone, Copy, PartialEq, Eq, Structural)]
pub enum EventAction {
    /// Push the snapshot, unless it is the one that was pushed last.
    Push,
    Balance,
    Export,
    Housekeeping,
    /// Answer a message from the band.
    Answer,
    Nothing,
}

/// What a timer with this payload asks for.
pub open spec fn action_named(which: Option<Seq<char>>) -> EventAction {
    match which {
        Some(name) => if name == "push"@ {
            EventAction::Push
        } else if name == "balance"@ {
            EventAction::Balance
        } else if name == "export"@ {
            EventAction::Export
        } else if name == "housekeeping"@ {
            EventAction::Housekeeping
        } else {
            EventAction::Nothing
        },
        None => EventAction::Nothing,
    }
}

/// The payload that a timer event names in its field `payload`.
pub open spec fn timer_payload(event: Option<JsonView>) -> Option<Seq<char>> {
    match event {
        Some(v) => opt_text(v.field("payload"@)),
        None => None,
    }
}

/// What a timer event asks for, its payload read as JSON.
pub fn timer_action(event: &Option<Json>) -> (action: EventAction)
    ensures
        action == action_named(
            timer_payload(
                match event {
                    Some(v) => Some(v@),
                    None => None,
                },
            ),
        ),
{
    let which = match event {
        Some(v) => text_of(v.field("payload")),
        None => None,
    };
    match which {
        Some(name) => if text_eq(name.as_str(), "push") {
            EventAction::Push
        } else if text_eq(name.as_str(), "balance") {
            EventAction::Balance
        } else if text_eq(name.as_str(), "export") {
            EventAction::Export
        } else if text_eq(name.as_str(), "housekeeping") {
            EventAction::Housekeeping
        } else {
            EventAction::Nothing
        },
        None => EventAction::Nothing,
    }
}

/// What an event asks for.
pub fn event_action(kind: EventKind, payload: &str) -> (action: EventAction)
    ensures
        action == match kind {
            EventKind::Timer => action_named(timer_payload(json_document(payload.spec_bytes()))),
            EventKind::InterconnectMessage => EventAction::Answer,
            EventKind::Other => EventAction::Nothing,
        },
{
    match kind {
        EventKind::Timer => timer_action(&read_json(payload.as_bytes())),
        EventKind::InterconnectMessage => EventAction::Answer,
        EventKind::Other => EventAction::Nothing,
    }
}

/// Whether a message from the band comes too soon behind the last one that was answered.
pub open spec fn is_duplicate(last: Option<i64>, now: int) -> bool {
    last matches Some(t) && now - t < INTERCONNECT_DEDUP_SECS
}

/// Takes a message from the band. Says whether it is to be answered, which is then remembered.
pub fn take_message(last: &mut Option<i64>, now: i64) -> (answer: bool)
    ensures
        answer == !is_duplicate(*old(last), now as int),
        *final(last) == if answer {
            Some(now)
        } else {
            *old(last)
        },
{
    if let Some(t) = *last {
        if (now as i128) - (t as i128) < INTERCONNECT_DEDUP_SECS as i128 {
            return false;
        }
    }
    *last = Some(now);
    true
}

/// A message is answered exactly where the last answered one is at least three seconds old, and
/// ignored messages do not extend the wait.
pub proof fn law_messages(t: i64, now: i64, later: i64)
    ensures
        is_duplicate(Some(t), now as int) <==> now - t < 3,
        is_duplicate(Some(t), now as int) && later - t >= 3 ==> !is_duplicate(
            Some(t),
            later as int,
        ),
        !is_duplicate(None, now as int),
{
}

/// What is known of the connected device.
pub struct LinkView {
    pub addr: Option<Seq<char>>,
    pub recv_registered: bool,
}

impl View for DeviceLink {
    type V = LinkView;

    open spec fn view(&self) -> LinkView {
        LinkView { addr: option_text(self.addr), recv_registered: self.recv_registered }
    }
}

/// What is known behind a look at the connected devices, the first of which counts. A change of
/// the device ends the registration.
pub open spec fn link_seen(link: LinkView, devices: Seq<Seq<char>>) -> LinkView {
    let addr = if devices.len() > 0 {
        Some(devices[0])
    } else {
        None
    };
    LinkView { addr, recv_registered: link.recv_registered && addr == link.addr }
}

/// The device whose messages are still to be registered for.
pub open spec fn to_register(link: LinkView) -> Option<Seq<char>> {
    if link.recv_registered {
        None
    } else {
        link.addr
    }
}

/// What is known behind a registration that succeeded or failed.
pub open spec fn link_registered(link: LinkView, ok: bool) -> LinkView {
    LinkView { recv_registered: link.recv_registered || ok, ..link }
}

/// Takes the addresses of the connected devices. Says which device is to be registered, if any.
pub fn note_devices(link: &mut DeviceLink, devices: &Vec<String>) -> (register: Option<String>)
    ensures
        final(link)@ == link_seen(old(link)@, texts(devices@)),
        option_text(register) == to_register(final(link)@),
{
    let addr = if devices.len() > 0 {
        Some(devices[0].clone())
    } else {
        None
    };
    let same = match &addr {
        Some(a) => option_text_is(&link.addr, a.as_str()),
        None => link.addr.is_none(),
    };
    if !same {
        link.recv_registered = false;
        link.addr = copy_option_text(&addr);
    }
    if link.recv_registered {
        None
    } else {
        addr
    }
}

/// Takes the outcome of a registration.
pub fn note_registration(link: &mut DeviceLink, ok: bool)
    ensures
        final(link)@ == link_registered(old(link)@, ok),
{
    if ok {
        link.recv_registered = true;
    }
}

/// A device is registered once: again only where the registration failed, or where another device
/// was connected.
pub proof fn law_registration(link: LinkView, devices: Seq<Seq<char>>, later: Seq<Seq<char>>, ok: bool)
    requires
        devices.len() > 0,
        later.len() > 0,
    ensures
        ({
            let seen = link_seen(link, devices);
            let registered = link_registered(seen, ok || to_register(seen) is None);
            let next = link_seen(registered, later);
            &&& to_register(next) == if devices[0] == later[0] && registered.recv_registered {
                None
            } else {
                Some(later[0])
            }
            &&& registered.recv_registered <==> ok || (link.recv_registered && link.addr == Some(
                devices[0],
            ))
        }),
{
}

/// A push that is under way: to which device and package, with which signature and how many
/// bytes.
#[derive(Debug, Clone, PartialEq, Eq)]
pub struct PushJob {
    pub addr: String,
    pub pkg: String,
    pub signature: String,
    pub size: usize,
}

/// What a push under way is.
pub struct PushJobView {
    pub addr: Seq<char>,
    pub pkg: Seq<char>,
    pub signature: Seq<char>,
    pub size: usize,
}

impl View for PushJob {
    type V = PushJobView;

    open spec fn view(&self) -> PushJobView {
        PushJobView {
            addr: self.addr@,
            pkg: self.pkg@,
            signature: self.signature@,
            size: self.size,
        }
    }
}

/// What the last push was.
pub struct PushRecordView {
    pub at: Option<i64>,
    pub signature: Option<Seq<char>>,
    pub device: Option<Seq<char>>,
}

impl View for PushRecord {
    type V = PushRecordView;

    open spec fn view(&self) -> PushRecordView {
        PushRecordView {
            at: self.at,
            signature: option_text(self.signature),
            device: option_text(self.device),
        }
    }
}

/// Whether the last push went to this device with this signature.
pub open spec fn already_pushed(
    pushed: PushRecordView,
    addr: Seq<char>,
    signature: Seq<char>,
) -> bool {
    pushed.device == Some(addr) && pushed.signature == Some(signature)
}

/// How a push begins: with a job, or with what the user reads where nothing is sent. Without
/// `force`, what was pushed last to the same device is not pushed again.
pub open spec fn push_begins(
    addr: Option<Seq<char>>,
    pkg: Seq<char>,
    pushed: PushRecordView,
    force: bool,
    signature: Seq<char>,
    size: usize,
) -> Result<PushJobView, Seq<char>> {
    match addr {
        None => Err("未连接设备,跳过推送(请先在 AstroBox 连接手环)"@),
        Some(addr) => if !force && already_pushed(pushed, addr, signature) {
            Err("快照无变化,跳过推送("@ + digits(size as nat) + " 字节)"@)
        } else {
            Ok(PushJobView { addr, pkg, signature, size })
        },
    }
}

/// What a push sends at `now`, and the part of it whose change is worth a push; nothing where the
/// tokens of that day do not add up within 64 bits.
pub fn push_content<M: Copy>(state: &AppState<M>, now: i64) -> (content: Option<
    (Snapshot<M>, Signature<M>),
>)
    requires
        state.data.wf(),
    ensures
        content is None <==> !day_fits(
            rows_of(state.data.usage(), today(now as int, state.tz_offset_min as int)),
        ),
        content matches Some(c) ==> c.0@ == snapshot_of(
            state.data.usage(),
            option_balance(state.data.balance),
            state.data.last_import_at,
            state.settings.provider@,
            state.tz_offset_min as int,
            now,
        ) && c.1@ == signature_of(c.0@),
{
    match checked_snapshot_at(
        &state.data,
        state.settings.provider.as_str(),
        state.tz_offset_min,
        now,
    ) {
        Some(snap) => {
            let signature = stable_signature(&snap);
            Some((snap, signature))
        },
        None => None,
    }
}

/// Begins a push of a snapshot with this signature and so many bytes.
pub fn push_start<M>(
    state: &AppState<M>,
    force: bool,
    signature: String,
    size: usize,
) -> (r: Result<PushJob, String>)
    ensures
        match push_begins(
            option_text(state.link.addr),
            state.settings.push_pkg@,
            state.pushed@,
            force,
            signature@,
            size,
        ) {
            Ok(job) => r is Ok && r->Ok_0@ == job,
            Err(status) => r is Err && r->Err_0@ == status,
        },
{
    let addr = match &state.link.addr {
        Some(addr) => addr.clone(),
        None => return Err("未连接设备,跳过推送(请先在 AstroBox 连接手环)".to_owned()),
    };
    if !force {
        let unchanged = option_text_is(&state.pushed.device, addr.as_str()) && option_text_is(
            &state.pushed.signature,
            signature.as_str(),
        );
        if unchanged {
            let mut status = "快照无变化,跳过推送(".to_owned();
            status.append(usize_text(size).as_str());
            status.append(" 字节)");
            return Err(status);
        }
    }
    Ok(PushJob { addr, pkg: state.settings.push_pkg.clone(), signature, size })
}

/// Whether the device's list of apps shows that the package is missing. A list that could not be
/// had shows nothing.
pub open spec fn shows_missing(apps: Option<Seq<Seq<char>>>, pkg: Seq<char>) -> bool {
    apps matches Some(apps) && !apps.contains(pkg)
}

/// What the user reads where the band lacks the package.
pub open spec fn missing_text(pkg: Seq<char>) -> Seq<char> {
    "推送失败:手环未安装 "@ + pkg + ",请先通过 AstroBox 安装 vela 快应用"@
}

/// The names of the packages in an optional list.
pub open spec fn option_texts(apps: Option<Vec<String>>) -> Option<Seq<Seq<char>>> {
    match apps {
        Some(apps) => Some(texts(apps@)),
        None => None,
    }
}

fn lists(apps: &Vec<String>, pkg: &str) -> (r: bool)
    ensures
        r == texts(apps@).contains(pkg@),
{
    let mut i: usize = 0;
    while i < apps.len()
        invariant
            i <= apps@.len(),
            forall|j: int| 0 <= j < i ==> (#[trigger] apps@[j])@ != pkg@,
        decreases apps@.len() - i,
    {
        if text_eq(apps[i].as_str(), pkg) {
            proof {
                assert(texts(apps@)[i as int] == pkg@);
            }
            return true;
        }
        i = i + 1;
    }
    proof {
        assert forall|j: int| 0 <= j < apps@.len() implies texts(apps@)[j] != pkg@ by {
            assert(texts(apps@)[j] == apps@[j]@);
        }
    }
    false
}

/// Looks a push's package up among the apps of the device; `None` means that the list could not
/// be had. Comes back with what the user reads where nothing is to be sent.
pub fn push_check(job: &PushJob, apps: &Option<Vec<String>>) -> (stop: Option<String>)
    ensures
        option_text(stop) == if shows_missing(option_texts(*apps), job.pkg@) {
            Some(missing_text(job.pkg@))
        } else {
            None
        },
{
    match apps {
        Some(apps) => if lists(apps, job.pkg.as_str()) {
            None
        } else {
            let mut status = "推送失败:手环未安装 ".to_owned();
            status.append(job.pkg.as_str());
            status.append(",请先通过 AstroBox 安装 vela 快应用");
            Some(status)
        },
        None => None,
    }
}

/// What is remembered of a push that was sent or failed.
pub open spec fn push_remembers(
    pushed: PushRecordView,
    job: PushJobView,
    sent: bool,
    now: i64,
) -> PushRecordView {
    if sent {
        PushRecordView { at: Some(now), signature: Some(job.signature), device: Some(job.addr) }
    } else {
        pushed
    }
}

/// What the user reads of a push that was sent or failed.
pub open spec fn push_text(job: PushJobView, sent: bool) -> Seq<char> {
    if sent {
        "已推送快照 "@ + digits(job.size as nat) + " 字节 → "@ + job.pkg
    } else {
        "推送失败:设备不在线/未安装快应用/未授权 interconnect"@
    }
}

/// Takes the outcome of a push. Comes back with what the user reads.
pub fn push_end(pushed: &mut PushRecord, job: PushJob, sent: bool, now: i64) -> (status: String)
    ensures
        final(pushed)@ == push_remembers(old(pushed)@, job@, sent, now),
        status@ == push_text(job@, sent),
{
    if !sent {
        return "推送失败:设备不在线/未安装快应用/未授权 interconnect".to_owned();
    }
    pushed.at = Some(now);
    pushed.signature = Some(job.signature);
    pushed.device = Some(job.addr);
    let mut status = "已推送快照 ".to_owned();
    status.append(usize_text(job.size).as_str());
    status.append(" 字节 → ");
    status.append(job.pkg.as_str());
    status
}

/// A forced push to a connected device always goes on.
pub proof fn law_forced_push_goes_on(
    addr: Seq<char>,
    pkg: Seq<char>,
    pushed: PushRecordView,
    signature: Seq<char>,
    size: usize,
)
    ensures
        push_begins(Some(addr), pkg, pushed, true, signature, size) == Ok::<
            PushJobView,
            Seq<char>,
        >(PushJobView { addr, pkg, signature, size }),
{
}

/// Behind a push that was sent, one without `force` of the same data to the same device is
/// skipped; other data, or another device, go on.
pub proof fn law_unchanged_push_is_skipped(
    pushed: PushRecordView,
    job: PushJobView,
    now: i64,
    addr: Seq<char>,
    signature: Seq<char>,
    size: usize,
)
    ensures
        push_begins(
            Some(addr),
            job.pkg,
            push_remembers(pushed, job, true, now),
            false,
            signature,
            size,
        ) is Err <==> addr == job.addr && signature == job.signature,
{
}

/// Behind a push that was sent, one without `force` is skipped as long as the device, the provider,
/// the data and the local date stay: it does not begin, so no list of apps is asked for, nothing is
/// sent, and what is remembered stays. To another device it goes on. This holds however signatures
/// are written down; neither the package nor the time of the last import matters.
pub proof fn law_unchanged_data_are_not_pushed_again<M>(
    text: spec_fn(SignatureView<M>) -> Seq<char>,
    days: DayMap<M>,
    balance: Option<BalanceView<M>>,
    import_a: Option<i64>,
    import_b: Option<i64>,
    provider: Seq<char>,
    tz: int,
    now_a: i64,
    now_b: i64,
    pushed: PushRecordView,
    sent_at: i64,
    addr: Seq<char>,
    other: Seq<char>,
    pkg_a: Seq<char>,
    pkg_b: Seq<char>,
    size_a: usize,
    size_b: usize,
)
    requires
        local_day(now_a as int, tz) == local_day(now_b as int, tz),
    ensures
        ({
            let first = text(
                signature_of(snapshot_of(days, balance, import_a, provider, tz, now_a)),
            );
            let next = text(
                signature_of(snapshot_of(days, balance, import_b, provider, tz, now_b)),
            );
            let job = PushJobView { addr, pkg: pkg_a, signature: first, size: size_a };
            let remembered = push_remembers(pushed, job, true, sent_at);
            &&& push_begins(Some(addr), pkg_b, remembered, false, next, size_b) is Err
            &&& other != addr ==> push_begins(
                Some(other),
                pkg_b,
                remembered,
                false,
                next,
                size_b,
            ) is Ok
        }),
{
    law_signature_stays_within_a_day(
        days,
        balance,
        import_a,
        import_b,
        provider,
        tz,
        now_a,
        now_b,
    );
}

/// Behind a push that was sent, one of data with another signature goes on, where different
/// signatures are written down differently.
pub proof fn law_changed_data_are_pushed<M>(
    text: spec_fn(SignatureView<M>) -> Seq<char>,
    first: SignatureView<M>,
    next: SignatureView<M>,
    pushed: PushRecordView,
    sent_at: i64,
    addr: Seq<char>,
    pkg: Seq<char>,
    force: bool,
    size_a: usize,
    size_b: usize,
)
    requires
        forall|a: SignatureView<M>, b: SignatureView<M>| #[trigger]
            text(a) == #[trigger] text(b) ==> a == b,
        first != next,
    ensures
        push_begins(
            Some(addr),
            pkg,
            push_remembers(
                pushed,
                (PushJobView { addr, pkg, signature: text(first), size: size_a }),
                true,
                sent_at,
            ),
            force,
            text(next),
            size_b,
        ) is Ok,
{
}

/// A push that failed changes nothing of what is remembered, so the next one is tried again.
pub proof fn law_failed_push_is_tried_again(
    pushed: PushRecordView,
    job: PushJobView,
    now: i64,
    force: bool,
)
    requires
        push_begins(Some(job.addr), job.pkg, pushed, force, job.signature, job.size) is Ok,
    ensures
        push_begins(
            Some(job.addr),
            job.pkg,
            push_remembers(pushed, job, false, now),
            force,
            job.signature,
            job.size,
        ) is Ok,
{
}

/// Where nothing is remembered of the last push, as behind a restored backup, no push is skipped.
pub proof fn law_nothing_pushed_goes_on(
    at: Option<i64>,
    addr: Seq<char>,
    pkg: Seq<char>,
    force: bool,
    signature: Seq<char>,
    size: usize,
)
    ensures
        push_begins(
            Some(addr),
            pkg,
            PushRecordView { at, signature: None, device: None },
            force,
            signature,
            size,
        ) is Ok,
{
}

/// The file name that is proposed for a backup.
pub fn backup_file_name(now: i64) -> (name: String)
    ensures
        name@ == "deepseek-miband-backup-"@ + int_text(now as int) + ".json"@,
{
    let mut name = "deepseek-miband-backup-".to_owned();
    name.append(i64_text(now).as_str());
    name.append(".json");
    name
}

/// What the user reads where no backup could be made.
pub fn backup_failed(cause: &str) -> (status: String)
    ensures
        status@ == "备份失败: "@ + cause@,
{
    joined("备份失败: ", cause)
}

/// The pieces in which bytes are written: all of the full size but the last.
pub open spec fn pieces_of(bytes: Seq<u8>) -> Seq<Seq<u8>>
    decreases bytes.len(),
{
    if bytes.len() == 0 {
        Seq::empty()
    } else if bytes.len() <= CHUNK_BYTES {
        seq![bytes]
    } else {
        seq![bytes.take(CHUNK_BYTES as int)] + pieces_of(bytes.skip(CHUNK_BYTES as int))
    }
}

/// The pieces one behind the other.
pub open spec fn joined_pieces(pieces: Seq<Seq<u8>>) -> Seq<u8>
    decreases pieces.len(),
{
    if pieces.len() == 0 {
        Seq::empty()
    } else {
        pieces[0] + joined_pieces(pieces.skip(1))
    }
}

/// Written one behind the other, the pieces are the bytes; none is empty and none is above the
/// full size.
pub proof fn law_pieces(bytes: Seq<u8>)
    ensures
        joined_pieces(pieces_of(bytes)) == bytes,
        forall|i: int|
            0 <= i < pieces_of(bytes).len() ==> 0 < (#[trigger] pieces_of(bytes)[i]).len()
                <= CHUNK_BYTES,
        forall|i: int|
            0 <= i < pieces_of(bytes).len() - 1 ==> (#[trigger] pieces_of(bytes)[i]).len()
                == CHUNK_BYTES,
    decreases bytes.len(),
{
    let pieces = pieces_of(bytes);
    if bytes.len() == 0 {
    } else if bytes.len() <= CHUNK_BYTES {
        assert(joined_pieces(pieces.skip(1)) =~= Seq::empty());
        assert(joined_pieces(pieces) =~= bytes);
    } else {
        let rest = bytes.skip(CHUNK_BYTES as int);
        law_pieces(rest);
        assert(pieces.skip(1) =~= pieces_of(rest));
        assert(joined_pieces(pieces) =~= bytes);
        assert forall|i: int| 0 <= i < pieces.len() implies 0 < (#[trigger] pieces[i]).len()
            <= CHUNK_BYTES by {
            if i > 0 {
                assert(pieces[i] == pieces_of(rest)[i - 1]);
            }
        }
        assert forall|i: int| 0 <= i < pieces.len() - 1 implies (#[trigger] pieces[i]).len()
            == CHUNK_BYTES by {
            if i > 0 {
                assert(pieces[i] == pieces_of(rest)[i - 1]);
            }
        }
    }
}

/// A backup that is being written: its bytes, and how many of them are written.
#[derive(Debug, Clone, PartialEq, Eq)]
pub struct SaveJob {
    pub bytes: Vec<u8>,
    pub written: usize,
}

/// What the host reports while a backup is written.
#[derive(Debug, Clone, Copy, PartialEq, Eq, Structural)]
pub enum SaveEvent {
    /// The dialog was answered: whether there is a file to write to.
    Opened(bool),
    /// A piece was written, or not.
    Written(bool),
    /// The file was closed, or not.
    Finished(bool),
}

/// What comes next while a backup is written.
#[derive(Debug, Clone, PartialEq, Eq)]
pub enum SaveAction {
    Write(Vec<u8>),
    Finish,
    /// Nothing more: whether the file is to be given up, and what the user reads.
    Stop(bool, String),
}

/// What comes next while a backup is written.
pub enum SaveActionView {
    Write(Seq<u8>),
    Finish,
    Stop(bool, Seq<char>),
}

impl View for SaveAction {
    type V = SaveActionView;

    open spec fn view(&self) -> SaveActionView {
        match self {
            SaveAction::Write(piece) => SaveActionView::Write(piece@),
            SaveAction::Finish => SaveActionView::Finish,
            SaveAction::Stop(abort, status) => SaveActionView::Stop(*abort, status@),
        }
    }
}

/// The bytes of the piece that begins at `written`.
pub open spec fn piece_at(bytes: Seq<u8>, written: int) -> Seq<u8> {
    if bytes.len() - written <= CHUNK_BYTES {
        bytes.skip(written)
    } else {
        bytes.subrange(written, written + CHUNK_BYTES)
    }
}

/// Write the next piece, or finish where all is written.
pub open spec fn write_on(bytes: Seq<u8>, written: int) -> SaveActionView {
    if written < bytes.len() {
        SaveActionView::Write(piece_at(bytes, written))
    } else {
        SaveActionView::Finish
    }
}

/// How far the bytes are written behind an event.
pub open spec fn written_after(bytes: Seq<u8>, written: int, event: SaveEvent) -> int {
    if event == SaveEvent::Written(true) && written < bytes.len() {
        written + piece_at(bytes, written).len()
    } else {
        written
    }
}

/// What comes next behind an event.
pub open spec fn save_next(bytes: Seq<u8>, written: int, event: SaveEvent) -> SaveActionView {
    match event {
        SaveEvent::Opened(ok) => if ok {
            write_on(bytes, written)
        } else {
            SaveActionView::Stop(false, "备份已取消或无法打开保存窗口"@)
        },
        SaveEvent::Written(ok) => if ok {
            write_on(bytes, written_after(bytes, written, event))
        } else {
            SaveActionView::Stop(true, "备份失败:写入文件出错"@)
        },
        SaveEvent::Finished(ok) => if ok {
            SaveActionView::Stop(
                false,
                "备份完成: "@ + digits(bytes.len()) + " 字节 · 更新插件后请用“从备份恢复”导入"@,
            )
        } else {
            SaveActionView::Stop(true, "备份失败:无法完成保存"@)
        },
    }
}

impl SaveJob {
    /// The invariant: no more is written than there is.
    pub open spec fn wf(self) -> bool {
        self.written <= self.bytes@.len()
    }

    /// A backup of which nothing is written yet.
    pub fn new(bytes: Vec<u8>) -> (job: SaveJob)
        ensures
            job.wf(),
            job.bytes == bytes,
            job.written == 0,
    {
        SaveJob { bytes, written: 0 }
    }

    fn piece_len(&self) -> (n: usize)
        requires
            self.written < self.bytes@.len(),
        ensures
            n == piece_at(self.bytes@, self.written as int).len(),
            self.written + n <= self.bytes@.len(),
            piece_at(self.bytes@, self.written as int) == self.bytes@.subrange(
                self.written as int,
                self.written + n,
            ),
    {
        let left: usize = self.bytes.len() - self.written;
        let n: usize = if left <= CHUNK_BYTES {
            left
        } else {
            CHUNK_BYTES
        };
        proof {
            assert(self.bytes@.skip(self.written as int) =~= self.bytes@.subrange(
                self.written as int,
                self.bytes@.len() as int,
            ));
        }
        n
    }

    fn write_on(&self) -> (action: SaveAction)
        requires
            self.wf(),
        ensures
            action@ == write_on(self.bytes@, self.written as int),
    {
        if self.written < self.bytes.len() {
            let n: usize = self.piece_len();
            let piece = slice_to_vec(
                slice_subrange(self.bytes.as_slice(), self.written, self.written + n),
            );
            SaveAction::Write(piece)
        } else {
            SaveAction::Finish
        }
    }

    /// Takes what the host reported and says what comes next.
    pub fn step(&mut self, event: SaveEvent) -> (action: SaveAction)
        requires
            old(self).wf(),
        ensures
            final(self).wf(),
            final(self).bytes == old(self).bytes,
            final(self).written == written_after(
                old(self).bytes@,
                old(self).written as int,
                event,
            ),
            action@ == save_next(old(self).bytes@, old(self).written as int, event),
    {
        match event {
            SaveEvent::Opened(ok) => if ok {
                self.write_on()
            } else {
                SaveAction::Stop(false, "备份已取消或无法打开保存窗口".to_owned())
            },
            SaveEvent::Written(ok) => if ok {
                if self.written < self.bytes.len() {
                    let n: usize = self.piece_len();
                    self.written = self.written + n;
                }
                self.write_on()
            } else {
                SaveAction::Stop(true, "备份失败:写入文件出错".to_owned())
            },
            SaveEvent::Finished(ok) => if ok {
                let mut status = "备份完成: ".to_owned();
                status.append(usize_text(self.bytes.len()).as_str());
                status.append(" 字节 · 更新插件后请用“从备份恢复”导入");
                SaveAction::Stop(false, status)
            } else {
                SaveAction::Stop(true, "备份失败:无法完成保存".to_owned())
            },
        }
    }
}

/// What is written while every piece succeeds, from `written` on.
pub open spec fn pieces_written(bytes: Seq<u8>, written: int) -> Seq<Seq<u8>>
    decreases bytes.len() - written,
{
    match write_on(bytes, written) {
        SaveActionView::Write(piece) => if 0 <= written && piece.len() > 0 {
            seq![piece] + pieces_written(
                bytes,
                written_after(bytes, written, SaveEvent::Written(true)),
            )
        } else {
            Seq::empty()
        },
        _ => Seq::empty(),
    }
}

proof fn lemma_pieces_written(bytes: Seq<u8>, written: int)
    requires
        0 <= written <= bytes.len(),
    ensures
        pieces_written(bytes, written) == pieces_of(bytes.skip(written)),
    decreases bytes.len() - written,
{
    let rest = bytes.skip(written);
    if written < bytes.len() {
        let piece = piece_at(bytes, written);
        lemma_pieces_written(bytes, written + piece.len());
        if rest.len() <= CHUNK_BYTES {
            assert(bytes.skip(bytes.len() as int) =~= Seq::empty());
            assert(seq![piece] + Seq::<Seq<u8>>::empty() =~= seq![rest]);
        } else {
            assert(piece =~= rest.take(CHUNK_BYTES as int));
            assert(bytes.skip(written + CHUNK_BYTES) =~= rest.skip(CHUNK_BYTES as int));
        }
    }
}

/// Where the file opens and every piece is written, what the file then holds is the backup.
pub proof fn law_backup_is_written_whole(bytes: Seq<u8>)
    ensures
        joined_pieces(pieces_written(bytes, 0)) == bytes,
{
    lemma_pieces_written(bytes, 0);
    assert(bytes.skip(0) =~= bytes);
    law_pieces(bytes);
}

/// What the user reads of a picked file that cannot be restored from: none was picked, or
/// nothing could be read of it.
pub open spec fn picked_fault(name: Seq<char>, size: nat) -> Option<Seq<char>> {
    if name.len() == 0 && size == 0 {
        Some("未选择备份文件(已取消)"@)
    } else if size == 0 {
        Some("读取备份文件失败(文件为空或无法读取)"@)
    } else {
        None
    }
}

/// What the user reads of a picked file that cannot be restored from.
pub fn check_picked(name: &str, data: &[u8]) -> (status: Option<&'static str>)
    ensures
        (match status {
            Some(s) => Some(s@),
            None => None,
        }) == picked_fault(name@, data@.len()),
{
    if data.len() > 0 {
        return None;
    }
    if name.unicode_len() == 0 {
        Some("未选择备份文件(已取消)")
    } else {
        Some("读取备份文件失败(文件为空或无法读取)")
    }
}

/// What the user reads of a restored backup, with the name of its file, or of its fault.
pub fn restore_status(outcome: Result<String, String>, name: &str) -> (status: String)
    ensures
        status@ == match outcome {
            Ok(summary) => summary@ + "(来自 "@ + name@ + ")"@,
            Err(fault) => "恢复失败: "@ + fault@,
        },
{
    match outcome {
        Ok(summary) => {
            let mut status = summary;
            status.append("(来自 ");
            status.append(name);
            status.append(")");
            status
        },
        Err(fault) => joined("恢复失败: ", fault.as_str()),
    }
}

/// What the user reads where there is no key to ask for the balance with.
pub fn check_key(api_key: &str) -> (status: Option<&'static str>)
    ensures
        (match status {
            Some(s) => Some(s@),
            None => None,
        }) == if api_key@.len() == 0 {
            Some("未设置 API Key(插件页面输入后保存)"@)
        } else {
            None
        },
{
    if api_key.unicode_len() == 0 {
        Some("未设置 API Key(插件页面输入后保存)")
    } else {
        None
    }
}

/// What asking for the balance brought: the balance with its total as it is shown, nothing, or an
/// error.
#[derive(Debug, Clone, PartialEq)]
pub enum BalanceOutcome<M> {
    Balance(BalanceInfo<M>, String),
    Unavailable,
    Failed(String),
}

/// Takes what asking for the balance brought: a balance is kept, anything else leaves the data as
/// they are. Comes back with what the user reads.
pub fn note_balance<M>(data: &mut DataFile<M>, outcome: BalanceOutcome<M>) -> (status: String)
    ensures
        final(data).days == old(data).days,
        final(data).last_import_at == old(data).last_import_at,
        match outcome {
            BalanceOutcome::Balance(info, total) => final(data).balance == Some(info) && status@
                == "余额已更新: ¥"@ + total@,
            BalanceOutcome::Unavailable => final(data).balance == old(data).balance && status@
                == "余额接口不可用(检查 base_url / API Key)"@,
            BalanceOutcome::Failed(cause) => final(data).balance == old(data).balance && status@
                == "余额查询失败: "@ + cause@,
        },
{
    match outcome {
        BalanceOutcome::Balance(info, total) => {
            data.balance = Some(info);
            joined("余额已更新: ¥", total.as_str())
        },
        BalanceOutcome::Unavailable => "余额接口不可用(检查 base_url / API Key)".to_owned(),
        BalanceOutcome::Failed(cause) => joined("余额查询失败: ", cause.as_str()),
    }
}

/// What the user reads where there is no token to export with.
pub fn check_token(token: &str) -> (status: Option<&'static str>)
    ensures
        (match status {
            Some(s) => Some(s@),
            None => None,
        }) == if token@.len() == 0 {
            Some("未设置平台 token(浏览器 F12 复制,插件页面输入)"@)
        } else {
            None
        },
{
    if token.unicode_len() == 0 {
        Some("未设置平台 token(浏览器 F12 复制,插件页面输入)")
    } else {
        None
    }
}

/// What an export brought: the numbers of dates, models and replaced rows of its import, why the
/// import failed, or why there was nothing to import.
#[derive(Debug, Clone, PartialEq, Eq)]
pub enum ExportOutcome {
    Imported(usize, usize, usize),
    BadTables(String),
    Failed(String),
}

/// Takes what an export brought: the time of an import is kept, a failure leaves the data as they
/// are. Comes back with what the user reads.
pub fn note_export<M>(data: &mut DataFile<M>, outcome: ExportOutcome, now: i64) -> (status: String)
    ensures
        final(data).days == old(data).days,
        final(data).balance == old(data).balance,
        final(data).last_import_at == match outcome {
            ExportOutcome::Imported(_, _, _) => Some(now),
            _ => old(data).last_import_at,
        },
        status@ == match outcome {
            ExportOutcome::Imported(days, models, replaced) => "用量导入成功: "@ + digits(
                days as nat,
            ) + " 天 · "@ + digits(models as nat) + " 模型 · 替换 "@ + digits(replaced as nat)
                + " 行"@,
            ExportOutcome::BadTables(cause) => "CSV 导入失败: "@ + cause@,
            ExportOutcome::Failed(cause) => "导出失败: "@ + cause@,
        },
{
    match outcome {
        ExportOutcome::Imported(days, models, replaced) => {
            data.last_import_at = Some(now);
            let mut status = "用量导入成功: ".to_owned();
            status.append(usize_text(days).as_str());
            status.append(" 天 · ");
            status.append(usize_text(models).as_str());
            status.append(" 模型 · 替换 ");
            status.append(usize_text(replaced).as_str());
            status.append(" 行");
            status
        },
        ExportOutcome::BadTables(cause) => joined("CSV 导入失败: ", cause.as_str()),
        ExportOutcome::Failed(cause) => joined("导出失败: ", cause.as_str()),
    }
}

/// Whether the settings ask for the timer.
pub open spec fn has_timer(settings: SettingsView, name: Seq<char>) -> bool {
    exists|i: int|
        0 <= i < timers_for(settings).len() && (#[trigger] timers_for(settings)[i]).0 == name
}

/// There is a timer for exports exactly where the export interval is not 0; the other three are
/// always there.
pub proof fn law_export_timer(settings: SettingsView)
    ensures
        has_timer(settings, "export"@) <==> settings.export_interval_secs > 0,
        has_timer(settings, "push"@),
        has_timer(settings, "balance"@),
        has_timer(settings, "housekeeping"@),
{
    reveal_strlit("push");
    reveal_strlit("balance");
    reveal_strlit("export");
    reveal_strlit("housekeeping");
    assert("push"@.len() == 4);
    assert("balance"@.len() == 7);
    assert("export"@.len() == 6);
    assert("housekeeping"@.len() == 12);
    let timers = timers_for(settings);
    assert(timers[0].0 == "push"@);
    assert(timers[1].0 == "balance"@);
    assert(timers[timers.len() - 1].0 == "housekeeping"@);
    if settings.export_interval_secs > 0 {
        assert(timers[2].0 == "export"@);
    }
}

} // verus!
