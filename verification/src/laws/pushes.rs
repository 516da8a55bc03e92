//! Laws of pushes, devices, timers and backups that are being written.
use vstd::prelude::*;

use crate::engine::{
    action_named, link_registered, link_seen, missing_text, picked_fault,
    piece_at, push_begins, push_remembers, push_text, save_next, shows_missing, startup_text,
    timer_payload, timers_for, to_register, written_after, EventAction, LinkView,
    PushJobView, PushRecordView, SaveActionView, SaveEvent,
};
use crate::json::JsonView;
use crate::state::SettingsView;
use crate::text::digits;

verus! {

/// Whenever a push begins, forced or not and whatever was pushed before, it goes to the connected
/// device and to the package of the settings, with the given signature and size.
pub proof fn law_push_goes_to_the_connected_device(
    addr: Option<Seq<char>>,
    pkg: Seq<char>,
    pushed: PushRecordView,
    force: bool,
    signature: Seq<char>,
    size: usize,
)
    ensures
        push_begins(addr, pkg, pushed, force, signature, size) matches Ok(job) ==> addr == Some(
            job.addr,
        ) && job.pkg == pkg && job.signature == signature && job.size == size,
{
}

/// A push begins exactly where a device is connected, unless it is not forced and the last push
/// sent the same to that device.
pub proof fn law_when_a_push_begins(
    addr: Option<Seq<char>>,
    pkg: Seq<char>,
    pushed: PushRecordView,
    force: bool,
    signature: Seq<char>,
    size: usize,
)
    ensures
        push_begins(addr, pkg, pushed, force, signature, size) is Ok <==> addr is Some && (force
            || pushed.device != addr || pushed.signature != Some(signature)),
        addr is None ==> push_begins(addr, pkg, pushed, force, signature, size) == Err::<
            PushJobView,
            Seq<char>,
        >("未连接设备,跳过推送(请先在 AstroBox 连接手环)"@),
        addr is Some ==> (push_begins(addr, pkg, pushed, force, signature, size) matches Err(status)
            ==> status == "快照无变化,跳过推送("@ + digits(size as nat) + " 字节)"@),
{
}

/// A push that was sent is remembered with its time, signature and device, in the place of the one
/// before; one that failed is not.
pub proof fn law_what_a_push_leaves_behind(
    pushed: PushRecordView,
    job: PushJobView,
    now: i64,
)
    ensures
        ({
            let after = push_remembers(pushed, job, true, now);
            &&& after.at == Some(now)
            &&& after.signature == Some(job.signature)
            &&& after.device == Some(job.addr)
        }),
        push_remembers(pushed, job, false, now) == pushed,
        push_text(job, true) == "已推送快照 "@ + digits(job.size as nat) + " 字节 → "@ + job.pkg,
        push_text(job, false) == "推送失败:设备不在线/未安装快应用/未授权 interconnect"@,
{
}

/// A push stops for a missing app exactly where the list could be had and none of its apps is the
/// package.
pub proof fn law_when_an_app_is_missing(apps: Seq<Seq<char>>, pkg: Seq<char>)
    ensures
        !shows_missing(None, pkg),
        shows_missing(Some(apps), pkg) <==> forall|i: int|
            0 <= i < apps.len() ==> #[trigger] apps[i] != pkg,
        missing_text(pkg) == "推送失败:手环未安装 "@ + pkg
            + ",请先通过 AstroBox 安装 vela 快应用"@,
{
    if forall|i: int| 0 <= i < apps.len() ==> #[trigger] apps[i] != pkg {
        assert(!apps.contains(pkg));
    }
}

/// The first connected device is the one that counts. It stays registered only where it was
/// registered before; it is to be registered exactly where it is not.
pub proof fn law_devices(link: LinkView, devices: Seq<Seq<char>>, ok: bool)
    ensures
        ({
            let seen = link_seen(link, devices);
            &&& devices.len() == 0 ==> seen.addr is None && to_register(seen) is None
            &&& devices.len() > 0 ==> seen.addr == Some(devices[0])
            &&& seen.recv_registered <==> link.recv_registered && seen.addr == link.addr
            &&& devices.len() > 0 && !seen.recv_registered ==> to_register(seen) == Some(devices[0])
            &&& seen.recv_registered ==> to_register(seen) is None
            &&& link_registered(seen, ok).addr == seen.addr
            &&& link_registered(seen, ok).recv_registered <==> seen.recv_registered || ok
        }),
{
}

/// What is read at the start depends on the registration only where a device is connected.
pub proof fn law_startup(addr: Seq<char>, registered: bool)
    ensures
        startup_text(None, registered) == "插件已启动:未连接设备"@,
        startup_text(Some(addr), true) == "插件已启动:等待手环快应用打开并发送消息"@,
        startup_text(Some(addr), false)
            == "插件已启动:互联接收未注册成功(检查权限,housekeeping 会重试)"@,
{
}

/// Each timer has its own interval, in milliseconds, cut off at 64 bits; housekeeping comes every
/// 30 seconds whatever the settings are.
pub proof fn law_timer_intervals(settings: SettingsView, i: int)
    requires
        0 <= i < timers_for(settings).len(),
    ensures
        ({
            let t = timers_for(settings)[i];
            let ms = |secs: u64|
                if secs * 1000 <= 0xffff_ffff_ffff_ffff {
                    secs * 1000
                } else {
                    0xffff_ffff_ffff_ffff
                };
            &&& t.0 == "push"@ ==> t.1 == ms(settings.push_interval_secs)
            &&& t.0 == "balance"@ ==> t.1 == ms(settings.balance_interval_secs)
            &&& t.0 == "export"@ ==> t.1 == ms(settings.export_interval_secs)
            &&& t.0 == "housekeeping"@ ==> t.1 == 30_000
            &&& timers_for(settings).len() == if settings.export_interval_secs > 0 {
                4nat
            } else {
                3nat
            }
            &&& t.0 == "push"@ || t.0 == "balance"@ || t.0 == "export"@ || t.0 == "housekeeping"@
        }),
{
    reveal_strlit("push");
    reveal_strlit("balance");
    reveal_strlit("export");
    reveal_strlit("housekeeping");
    assert("push"@.len() == 4);
    assert("balance"@.len() == 7);
    assert("export"@.len() == 6);
    assert("housekeeping"@.len() == 12);
}

/// A timer asks for what its payload names and for nothing else; any other payload, and none, ask
/// for nothing.
pub proof fn law_timers_ask(name: Seq<char>, v: JsonView)
    ensures
        action_named(None) == EventAction::Nothing,
        action_named(Some(name)) == EventAction::Push <==> name == "push"@,
        action_named(Some(name)) == EventAction::Balance <==> name == "balance"@,
        action_named(Some(name)) == EventAction::Export <==> name == "export"@,
        action_named(Some(name)) == EventAction::Housekeeping <==> name == "housekeeping"@,
        action_named(Some(name)) != EventAction::Answer,
        timer_payload(None) is None,
        v.field("payload"@) == Some(JsonView::Text(name)) ==> timer_payload(Some(v)) == Some(name),
        v.field("payload"@) is None ==> timer_payload(Some(v)) is None,
{
    reveal_strlit("push");
    reveal_strlit("balance");
    reveal_strlit("export");
    reveal_strlit("housekeeping");
    assert("push"@.len() == 4);
    assert("balance"@.len() == 7);
    assert("export"@.len() == 6);
    assert("housekeeping"@.len() == 12);
}

/// A backup that fails at any point is given up and said to have failed; one that was never opened
/// leaves no file; it is finished only once every byte is written.
pub proof fn law_backups_end_one_way(bytes: Seq<u8>, written: int)
    requires
        0 <= written <= bytes.len(),
    ensures
        save_next(bytes, written, SaveEvent::Opened(false)) == SaveActionView::Stop(
            false,
            "备份已取消或无法打开保存窗口"@,
        ),
        save_next(bytes, written, SaveEvent::Written(false)) == SaveActionView::Stop(
            true,
            "备份失败:写入文件出错"@,
        ),
        save_next(bytes, written, SaveEvent::Finished(false)) == SaveActionView::Stop(
            true,
            "备份失败:无法完成保存"@,
        ),
        save_next(bytes, written, SaveEvent::Finished(true)) == SaveActionView::Stop(
            false,
            "备份完成: "@ + digits(bytes.len()) + " 字节 · 更新插件后请用“从备份恢复”导入"@,
        ),
        save_next(bytes, written, SaveEvent::Opened(true)) is Finish <==> written == bytes.len(),
        save_next(bytes, written, SaveEvent::Written(true)) is Finish <==> written_after(
            bytes,
            written,
            SaveEvent::Written(true),
        ) == bytes.len(),
        save_next(bytes, written, SaveEvent::Opened(true)) matches SaveActionView::Write(piece)
            ==> piece.is_prefix_of(bytes.skip(written)) && 0 < piece.len() <= 65_536,
        save_next(bytes, written, SaveEvent::Written(true)) matches SaveActionView::Write(piece)
            ==> piece.is_prefix_of(
            bytes.skip(written_after(bytes, written, SaveEvent::Written(true))),
        ) && 0 < piece.len() <= 65_536,
        !(save_next(bytes, written, SaveEvent::Opened(true)) is Stop),
        !(save_next(bytes, written, SaveEvent::Written(true)) is Stop),
        written_after(bytes, written, SaveEvent::Written(true)) - written == if bytes.len() - written
            <= 65_536 {
            bytes.len() - written
        } else {
            65_536
        },
        written_after(bytes, written, SaveEvent::Written(false)) == written,
        written_after(bytes, written, SaveEvent::Opened(true)) == written,
        written_after(bytes, written, SaveEvent::Opened(false)) == written,
        written_after(bytes, written, SaveEvent::Finished(true)) == written,
        written_after(bytes, written, SaveEvent::Finished(false)) == written,
{
    let next = written_after(bytes, written, SaveEvent::Written(true));
    if written < bytes.len() {
        assert(piece_at(bytes, written) =~= bytes.skip(written).take(
            piece_at(bytes, written).len() as int,
        ));
    }
    if next < bytes.len() {
        assert(piece_at(bytes, next) =~= bytes.skip(next).take(piece_at(bytes, next).len() as int));
    }
}

/// A picked file can be restored from exactly where something was read of it.
pub proof fn law_picked_files(name: Seq<char>, size: nat)
    ensures
        picked_fault(name, size) is None <==> size > 0,
        size == 0 && name.len() == 0 ==> picked_fault(name, size) == Some(
            "未选择备份文件(已取消)"@,
        ),
        size == 0 && name.len() > 0 ==> picked_fault(name, size) == Some(
            "读取备份文件失败(文件为空或无法读取)"@,
        ),
{
}

} // verus!
