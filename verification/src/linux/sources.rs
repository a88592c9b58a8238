//! What is read of files, devices and processes, stated over what they hold and
//! what comes of it.

use vstd::prelude::*;
use vstd::utf8::encode_utf8;
use crate::model::{FrequencyLimits, SensorHealth};
use crate::number::{decimal_text, decimal_text_reads_back};
use crate::paths::{joined, lies_below, lists_path, path_view};
use crate::platform::{InputDeviceId, InputEvent, IoKind, PlatformErrorView, ThermalSample};
use crate::text::{trimmed, words, Divider};
use super::discovery::{
    numbered_place, numbered_sorted, policy_found, policy_limits, policy_of, policy_paths,
    with_fallback, Gathered, PolicyFiles, PolicyView,
};
use super::environment::unquoted;
use super::input::{
    axis_in, event_node, longer, lost, open_result, raw_event, sleep_time, value_in, visited, AxisInfo,
    EventNodeIdentity, KernelEvent, NodeState, Opened, SourceView,
};
use super::procfs::{name_numbers, process_of, stat_pid, start_time, ProcessFiles};
use super::readings::written_numbers_are_read;
use super::survey::{inputs_found, zones_found, InputFiles};
use super::sysfs::{read_begins, relative_of, write_target, ReadStepView, SysfsView};
use super::touch::RawTouchEvent;

verus! {

/// A process is known by its number, its start and its real user, and only one
/// that is the same before and after its files were read. It is wholly its
/// owner's exactly if all four of its users are that one.
pub proof fn a_process_is_its_files(pid: u32, files: ProcessFiles)
    ensures
        process_of(pid, files) is Some <==> files.before.start_time_ticks
            == files.after.start_time_ticks,
        process_of(pid, files) is Some ==> {
            let p = process_of(pid, files)->0;
            &&& p.identity.pid == pid
            &&& p.identity.start_time_ticks == files.after.start_time_ticks
            &&& p.identity.uid == files.uids@[0]
            &&& p.owner_control_safe <==> forall|i: int|
                0 <= i < 4 ==> #[trigger] files.uids@[i] == p.identity.uid
            &&& p.comm == files.after.comm@
            &&& files.executable is None ==> p.executable is None
            &&& files.executable is Some ==> p.executable == Some(files.executable->0@)
        },
{
    if process_of(pid, files) is Some {
        let u = files.uids@;
        let uid = u[0];
        if u[1] == uid && u[2] == uid && u[3] == uid {
            assert forall|i: int| 0 <= i < 4 implies #[trigger] u[i] == uid by {
                assert(i == 0 || i == 1 || i == 2 || i == 3);
            }
        }
    }
}

/// The start of a process stands in the twentieth field behind its name.
pub proof fn the_start_stands_in_its_field(path: Seq<char>, tail: Seq<char>, ticks: nat)
    requires
        words(tail, Divider::Space).len() > 19,
        words(tail, Divider::Space)[19] == decimal_text(ticks),
    ensures
        ticks <= u64::MAX ==> start_time(path, tail) == Ok::<nat, PlatformErrorView>(ticks),
        ticks > u64::MAX ==> start_time(path, tail) is Err,
{
    written_numbers_are_read(ticks, u64::MAX as nat);
}

/// A record is that of the process whose directory it stands in, or refused.
pub proof fn a_record_names_its_process(path: Seq<char>, head: Seq<char>, pid: u32, expected: u32)
    requires
        trimmed(head) == decimal_text(pid as nat),
    ensures
        stat_pid(path, head, expected) is None <==> pid == expected,
{
    written_numbers_are_read(pid as nat, u32::MAX as nat);
}

/// Every directory that is named by a process number is a process.
pub proof fn numbered_directories_are_processes(names: Seq<Seq<char>>, n: nat, i: int, pid: u32)
    requires
        0 <= i < n <= names.len(),
        names[i] == decimal_text(pid as nat),
    ensures
        name_numbers(names, n).contains(pid as u64),
    decreases n,
{
    let all = name_numbers(names, n);
    let before = name_numbers(names, (n - 1) as nat);
    written_numbers_are_read(pid as nat, u32::MAX as nat);
    if i < n - 1 {
        numbered_directories_are_processes(names, (n - 1) as nat, i, pid);
        let j = choose|j: int| 0 <= j < before.len() && before[j] == pid as u64;
        assert(all[j] == before[j]);
    } else {
        assert(all[all.len() - 1] == pid as u64);
    }
}

/// A write goes to the file that the path resolves to, exactly if that lies below
/// the root, may be written, and the value is neither too long nor holds a zero
/// byte.
pub proof fn allowed_writes_are_made(v: SysfsView, path: Seq<char>, value: Seq<char>, file: Seq<char>)
    ensures
        write_target(v, path, value, Ok(file)) is Ok <==> {
            &&& encode_utf8(value).len() <= 4096
            &&& !encode_utf8(value).contains(0u8)
            &&& relative_of(path) is Ok
            &&& lies_below(file, v.root)
            &&& exists|i: int|
                0 <= i < v.writable.len() && path_view(#[trigger] v.writable[i]) == path_view(file)
        },
        write_target(v, path, value, Ok(file)) is Ok ==> write_target(v, path, value, Ok(file))
            == Ok::<Seq<char>, PlatformErrorView>(file),
{
    if lists_path(v.writable, file) {
        let i = choose|i: int|
            0 <= i < v.writable.len() && path_view(#[trigger] v.writable[i]) == path_view(file);
        assert(path_view(v.writable[i]) == path_view(file));
    }
}

/// A file that was found once is opened there from then on; one that was not is
/// looked for below the root.
pub proof fn found_files_are_remembered(v: SysfsView, logical: Seq<char>, file: Seq<char>)
    requires
        relative_of(logical) is Ok,
    ensures
        read_begins(v.remembering(relative_of(logical)->Ok_0, file), logical) == Ok::<
            ReadStepView,
            PlatformErrorView,
        >(ReadStepView::Open(file)),
        !v.read_paths.dom().contains(relative_of(logical)->Ok_0) ==> read_begins(v, logical) == Ok::<
            ReadStepView,
            PlatformErrorView,
        >(ReadStepView::Canonicalize(joined(v.root, relative_of(logical)->Ok_0))),
{
}

/// A policy has its own name, at least one CPU, a window that is not reversed, and
/// the governor that its file names.
pub proof fn a_policy_is_as_its_files(base: Seq<char>, name: Seq<char>, files: PolicyFiles)
    requires
        policy_of(base, name, files) is Ok,
    ensures
        ({
            let p = policy_of(base, name, files)->Ok_0;
            &&& p.id == "cpu."@ + name
            &&& p.policy_name == name
            &&& exists|c: u32| p.cpus.contains(c)
            &&& p.limits.min <= p.limits.max
            &&& Ok::<FrequencyLimits, PlatformErrorView>(p.limits) == policy_limits(base, files)
            &&& files.governor is None ==> p.governor is None
            &&& files.governor is Some ==> p.governor == Some(files.governor->0@)
        }),
{
    let p = policy_of(base, name, files)->Ok_0;
    if forall|c: u32| !(#[trigger] p.cpus.contains(c)) {
        assert(p.cpus =~= Set::<u32>::empty());
    }
}

/// The second of two files is read only where the first is missing.
pub proof fn the_second_file_stands_in(
    preferred: Result<Seq<char>, PlatformErrorView>,
    fallback: Result<Seq<char>, PlatformErrorView>,
)
    ensures
        preferred is Ok ==> with_fallback(preferred, fallback) == preferred,
        preferred is Err && preferred->Err_0 is Io && preferred->Err_0->Io_source.kind
            == IoKind::NotFound ==> with_fallback(preferred, fallback) == fallback,
        preferred is Err && preferred->Err_0 is Io && preferred->Err_0->Io_source.kind
            != IoKind::NotFound ==> with_fallback(preferred, fallback) == preferred,
{
}

/// A policy that can be read is found, and its bounds are written to its own
/// files; one that cannot is reported and left out.
pub proof fn readable_policies_are_found(
    relative: Seq<char>,
    g: Gathered<PolicyView>,
    name: Seq<char>,
    files: PolicyFiles,
)
    ensures
        ({
            let base = joined(joined("/sys"@, relative), name);
            let after = policy_found(relative, g, name, files);
            let p = policy_of(base, name, files);
            &&& p is Ok ==> {
                &&& after.found == g.found.push(p->Ok_0)
                &&& after.targets.dom().contains(p->Ok_0.id)
                &&& after.targets[p->Ok_0.id] == policy_paths(base, p->Ok_0.id)
                &&& after.warnings == g.warnings
            }
            &&& p is Err ==> after.found == g.found && after.targets == g.targets
                && after.warnings.len() == g.warnings.len() + 1
        }),
{
}

/// Numbered entries are taken in the order of their numbers.
pub proof fn entries_go_up(all: Seq<(u32, Seq<char>)>, n: nat)
    requires
        n <= all.len(),
    ensures
        numbered_sorted(all, n).len() == n,
        forall|i: int, j: int|
            0 <= i < j < n ==> (#[trigger] numbered_sorted(all, n)[i]).0 <= (
            #[trigger] numbered_sorted(all, n)[j]).0,
        numbered_sorted(all, n).to_multiset() =~= all.take(n as int).to_multiset(),
    decreases n,
{
    if n > 0 {
        let before = numbered_sorted(all, (n - 1) as nat);
        let x = all[n - 1];
        entries_go_up(all, (n - 1) as nat);
        a_place_parts_the_row(before, x.0, 0);
        let at = numbered_place(before, x.0, 0) as int;
        let after = before.insert(at, x);
        before.insert_ensures(at, x);
        after.to_multiset_ensures();
        assert(after.remove(at) =~= before);
        assert(after[at] == x);
        assert(after.contains(x));
        assert(after.to_multiset() =~= before.to_multiset().insert(x));
        assert(all.take(n as int) =~= all.take(n - 1).push(x));
        all.take(n - 1).to_multiset_ensures();
    } else {
        assert(all.take(0) =~= Seq::empty());
    }
}

proof fn a_place_parts_the_row(v: Seq<(u32, Seq<char>)>, x: u32, k: nat)
    requires
        k <= v.len(),
        forall|i: int, j: int| 0 <= i < j < v.len() ==> (#[trigger] v[i]).0 <= (#[trigger] v[j]).0,
        forall|i: int| 0 <= i < k ==> (#[trigger] v[i]).0 <= x,
    ensures
        k <= numbered_place(v, x, k) <= v.len(),
        forall|i: int| 0 <= i < numbered_place(v, x, k) ==> (#[trigger] v[i]).0 <= x,
        forall|i: int| numbered_place(v, x, k) <= i < v.len() ==> x <= (#[trigger] v[i]).0,
    decreases v.len() - k,
{
    if k < v.len() && !(x < v[k as int].0) {
        a_place_parts_the_row(v, x, k + 1);
    }
}

/// Every thermal sample is a zone, under its own name, type and reading, and one
/// without a believable temperature is reported.
pub proof fn samples_are_zones(warnings: Seq<Seq<char>>, all: Seq<ThermalSample>, n: nat, i: int)
    requires
        0 <= i < n <= all.len(),
    ensures
        ({
            let z = zones_found(warnings, all, n);
            &&& z.zones.len() == n
            &&& z.zones[i].id == all[i].zone_id@
            &&& z.zones[i].zone_type == all[i].zone_type@
            &&& z.zones[i].current == Some(all[i].reading)
            &&& z.paths.dom().contains(all[i].zone_id@)
            &&& all[i].reading.health != SensorHealth::Healthy ==> z.warnings.len()
                > warnings.len()
        }),
    decreases n,
{
    zones_are_counted(warnings, all, (n - 1) as nat);
    if i < n - 1 {
        samples_are_zones(warnings, all, (n - 1) as nat, i);
    }
}

proof fn zones_are_counted(warnings: Seq<Seq<char>>, all: Seq<ThermalSample>, n: nat)
    requires
        n <= all.len(),
    ensures
        zones_found(warnings, all, n).zones.len() == n,
        zones_found(warnings, all, n).warnings.len() >= warnings.len(),
    decreases n,
{
    if n > 0 {
        zones_are_counted(warnings, all, (n - 1) as nat);
    }
}

/// An input with a name is listed under it; one without is reported.
pub proof fn named_inputs_are_listed(
    warnings: Seq<Seq<char>>,
    all: Seq<InputFiles>,
    n: nat,
    i: int,
)
    requires
        0 <= i < n <= all.len(),
        all[i].name is Some,
    ensures
        exists|k: int|
            0 <= k < inputs_found(warnings, all, n).0.len() && (#[trigger] inputs_found(
                warnings,
                all,
                n,
            ).0[k]).id == all[i].event@ && inputs_found(warnings, all, n).0[k].name
                == all[i].name->0@,
    decreases n,
{
    let found = inputs_found(warnings, all, n).0;
    let before = inputs_found(warnings, all, (n - 1) as nat).0;
    if i < n - 1 {
        named_inputs_are_listed(warnings, all, (n - 1) as nat, i);
        let k = choose|k: int|
            0 <= k < before.len() && (#[trigger] before[k]).id == all[i].event@ && before[k].name
                == all[i].name->0@;
        assert(found[k] == before[k]);
    } else {
        assert(found[found.len() - 1].id == all[i].event@);
    }
}

/// The kernel's events are the touch protocol's: slots, tracking numbers and
/// positions by their codes, and the two kinds of report; nothing else is one.
pub proof fn kernel_events_are_touch_events(e: KernelEvent)
    ensures
        e.kind == 3 && e.code == 0x2f ==> raw_event(e) == Some(RawTouchEvent::Slot(e.value)),
        e.kind == 3 && e.code == 0x39 ==> raw_event(e) == Some(RawTouchEvent::TrackingId(e.value)),
        e.kind == 3 && e.code == 0x35 ==> raw_event(e) == Some(RawTouchEvent::PositionX(e.value)),
        e.kind == 3 && e.code == 0x36 ==> raw_event(e) == Some(RawTouchEvent::PositionY(e.value)),
        e.kind == 0 && e.code == 0 ==> raw_event(e) == Some(RawTouchEvent::SyncReport),
        e.kind == 0 && e.code == 3 ==> raw_event(e) == Some(RawTouchEvent::SyncDropped),
        e.kind != 0 && e.kind != 3 ==> raw_event(e) is None,
        e.kind == 0 && e.code != 0 && e.code != 3 ==> raw_event(e) is None,
        e.kind == 3 && e.code != 0x2f && e.code != 0x35 && e.code != 0x36 && e.code != 0x39
            ==> raw_event(e) is None,
{
}

/// An axis that is told once has the ends and the value that were told.
pub proof fn an_axis_is_as_told(all: Seq<AxisInfo>, n: nat, i: int, code: u16)
    requires
        0 <= i < n <= all.len(),
        all[i].code == code,
        all[i].minimum < all[i].maximum,
        forall|j: int| 0 <= j < n && j != i ==> (#[trigger] all[j]).code != code,
    ensures
        axis_in(all, n, code) == Some((all[i].minimum, all[i].maximum)),
        value_in(all, n, code) == Some(all[i].value),
    decreases n,
{
    if i < n - 1 {
        an_axis_is_as_told(all, (n - 1) as nat, i, code);
    }
}

/// A device is listed under `event` and its number, and no other name is one.
pub proof fn numbered_nodes_are_devices(name: Seq<char>, n: nat)
    ensures
        event_node("event"@ + decimal_text(n)),
        event_node(name) ==> name.len() > 5 && name.take(5) == "event"@,
{
    reveal_strlit("event");
    decimal_text_reads_back(n);
    let whole = "event"@ + decimal_text(n);
    assert(whole.take(5) =~= "event"@);
    assert(whole.skip(5) =~= decimal_text(n));
    assert(whole.subrange(0, 5) =~= "event"@);
    if event_node(name) {
        assert(name.take(5) =~= "event"@);
    }
}

/// A device that is lost is forgotten by its contacts at once and tried again
/// after a scan interval; the pauses after that double up to half a minute.
pub proof fn a_lost_device_is_tried_again(
    v: SourceView,
    path: Seq<char>,
    device: InputDeviceId,
    identity: EventNodeIdentity,
    now: u64,
    pause: u64,
)
    requires
        v.nodes.dom().contains(path),
        v.nodes[path] == (NodeState::Open { device, identity }),
        now + v.scan_interval <= u64::MAX,
    ensures
        ({
            let w = lost(v, path, now);
            let due = (now + v.scan_interval) as u64;
            &&& w.pending == v.pending.push(InputEvent::Resync { device: Some(device) })
            &&& due > 0 ==> visited(w, path, identity, (due - 1) as u64).1 is Leave
            &&& visited(w, path, identity, due).1 is Open
            &&& visited(v, path, identity, now).1 is Leave
        }),
        2 * pause <= 30_000 ==> longer(pause) == 2 * pause,
        2 * pause > 30_000 ==> longer(pause) == 30_000,
{
}

/// A node that is not known is opened, and one that took another's place too, with
/// the contacts of the other forgotten. What is no touch device is left alone.
pub proof fn new_nodes_are_opened(
    v: SourceView,
    path: Seq<char>,
    device: InputDeviceId,
    known: EventNodeIdentity,
    identity: EventNodeIdentity,
    retry_delay: u64,
    now: u64,
)
    ensures
        !v.nodes.dom().contains(path) ==> visited(v, path, identity, now).1 is Open,
        v.nodes.dom().contains(path) && v.nodes[path] == (NodeState::Open { device, identity: known })
            && known != identity ==> visited(v, path, identity, now).1 is Open && visited(
            v,
            path,
            identity,
            now,
        ).0.pending == v.pending.push(InputEvent::Resync { device: Some(device) }),
        visited(
            open_result(v, path, identity, Opened::Other, retry_delay, now),
            path,
            identity,
            now,
        ).1 is Leave,
{
}

/// Sleep ends by the next scan, and by the idle time where a device is open, and
/// not before the sooner of them.
pub proof fn sleep_ends_in_time(next_scan: u64, idle: u64, devices_open: bool, now: u64)
    ensures
        ({
            let t = sleep_time(next_scan, idle, devices_open, now);
            &&& t >= 0
            &&& now < next_scan ==> now + t <= next_scan
            &&& now >= next_scan ==> t == 0
            &&& devices_open ==> t <= idle
            &&& now < next_scan ==> now + t == next_scan || (devices_open && t == idle)
        }),
{
}

/// A value in quotes is read without them, and any other as it is.
pub proof fn quotes_are_taken_off(value: Seq<char>)
    ensures
        value.len() > 0 ==> unquoted(seq!['"'] + value + seq!['"']) == value,
        value.len() > 0 && value[0] != '"' && value[0] != '\'' ==> unquoted(value) == value,
{
    let q = seq!['"'] + value + seq!['"'];
    assert(q.subrange(1, q.len() - 1) =~= value);
}

} // verus!
