//! What changes of scheduling and of unit properties come to, stated over what is
//! asked for and what the system shows.

use vstd::prelude::*;
use vstd::utf8::encode_utf8;
use crate::model::SchedulingClass;
use crate::number::decimal_text;
use crate::platform::{PlatformErrorView, SchedulingView, UnitView};
use crate::text::{has_suffix, parted, trimmed, words, Divider};
use super::readings::{policy_numbers_are_the_kernels, written_numbers_are_read};
use super::scheduler::{
    clamp_arguments, forward_steps, parsed_stat, policy_arguments, sched_line, scheduling_of,
    stat_fields, trusted, undo_steps, ParsedSchedulerStat, SchedFields, StepView, ToolFacts,
};
use super::systemd::{
    change_taken, instance_key, is_mask_of, nonzero, original_taken, properties_error,
    properties_read_back, read_back_taken, undo_taken, unit_chars, unit_interface, unit_of,
    ChangeView, KeyView, RawView, UnitAction,
};
use super::transaction::{
    run, success_is_what_was_asked_for, ReplyView, SchedulingActionView, Turn,
};

verus! {

/// A change of scheduling that ends well has been read back: every value that was
/// asked for is in force.
pub proof fn success_shows_every_value(
    start: Turn,
    given: Seq<ReplyView>,
    n: nat,
    actual: SchedulingView,
)
    requires
        start.state.phase is ReadOriginal,
        start.action is Read,
        n <= given.len(),
        run(start, given, n).action == SchedulingActionView::Finish(
            Ok::<SchedulingView, PlatformErrorView>(actual),
        ),
    ensures
        actual.affinity == start.state.desired.affinity,
        actual.nice == start.state.desired.nice,
        actual.policy == start.state.desired.policy,
        actual.rt_priority == start.state.desired.rt_priority,
        start.state.desired.uclamp_min is Some ==> actual.uclamp_min
            == start.state.desired.uclamp_min,
        start.state.desired.uclamp_max is Some ==> actual.uclamp_max
            == start.state.desired.uclamp_max,
{
    success_is_what_was_asked_for(start, given, n);
}

/// Each value that differs is set to what was asked for, and none other is
/// touched.
pub proof fn what_differs_is_set(original: SchedulingView, desired: SchedulingView)
    ensures
        desired.affinity != original.affinity <==> exists|i: int|
            0 <= i < forward_steps(original, desired).len() && (#[trigger] forward_steps(
                original,
                desired,
            )[i]) == StepView::Affinity(desired.affinity),
        desired.nice != original.nice <==> exists|i: int|
            0 <= i < forward_steps(original, desired).len() && (#[trigger] forward_steps(
                original,
                desired,
            )[i]) == StepView::Nice(desired.nice),
        desired.policy != original.policy || desired.rt_priority != original.rt_priority
            <==> exists|i: int|
            0 <= i < forward_steps(original, desired).len() && (#[trigger] forward_steps(
                original,
                desired,
            )[i]) == StepView::Policy(desired.policy, desired.rt_priority),
        desired.uclamp_min is None && desired.uclamp_max is None ==> forall|i: int|
            0 <= i < forward_steps(original, desired).len() ==> !(#[trigger] forward_steps(
                original,
                desired,
            )[i] is Uclamp),
{
    let steps = forward_steps(original, desired);
    let a: nat = if desired.affinity != original.affinity {
        1
    } else {
        0
    };
    let b: nat = if desired.nice != original.nice {
        a + 1
    } else {
        a
    };
    if desired.affinity != original.affinity {
        assert(steps[0] == StepView::Affinity(desired.affinity));
    }
    if desired.nice != original.nice {
        assert(steps[a as int] == StepView::Nice(desired.nice));
    }
    if desired.policy != original.policy || desired.rt_priority != original.rt_priority {
        assert(steps[b as int] == StepView::Policy(desired.policy, desired.rt_priority));
    }
}

/// What was done last is undone first, to the value from before.
pub proof fn undoing_runs_backwards(original: SchedulingView, steps: Seq<StepView>, n: nat, i: int)
    requires
        0 <= i < n <= steps.len(),
    ensures
        undo_steps(original, steps, n).len() == n,
        steps[n - 1 - i] is Affinity ==> undo_steps(original, steps, n)[i] == StepView::Affinity(
            original.affinity,
        ),
        steps[n - 1 - i] is Nice ==> undo_steps(original, steps, n)[i] == StepView::Nice(
            original.nice,
        ),
        steps[n - 1 - i] is Policy ==> undo_steps(original, steps, n)[i] == StepView::Policy(
            original.policy,
            original.rt_priority,
        ),
        steps[n - 1 - i] is Uclamp && original.uclamp_min is Some && original.uclamp_max is Some
            ==> undo_steps(original, steps, n)[i] == StepView::Uclamp(
            original.uclamp_min->Some_0,
            original.uclamp_max->Some_0,
        ),
{
}

/// A tool is run only if nobody but the superuser could have changed it.
pub proof fn only_safe_tools_are_run(facts: ToolFacts)
    ensures
        trusted(facts) <==> {
            &&& facts.is_file
            &&& facts.is_absolute
            &&& facts.owner == 0
            &&& facts.mode & 0o002 == 0
            &&& facts.mode & 0o020 == 0
        },
{
    let m = facts.mode;
    assert((m & 0o022 == 0) <==> (m & 0o002 == 0 && m & 0o020 == 0)) by (bit_vector);
}

/// The tools are told the values, the process last.
pub proof fn tools_are_told_the_values(
    process: u32,
    policy: SchedulingClass,
    priority: Option<u8>,
    low: u16,
    high: u16,
)
    ensures
        ({
            let a = policy_arguments(process, policy, priority);
            &&& a.len() == 4
            &&& policy == SchedulingClass::Fifo ==> a[0] == "--fifo"@
            &&& policy == SchedulingClass::Other ==> a[0] == "--other"@
            &&& policy == SchedulingClass::Batch ==> a[0] == "--batch"@
            &&& policy == SchedulingClass::Idle ==> a[0] == "--idle"@
            &&& priority is Some ==> a[2] == decimal_text(priority->0 as nat)
            &&& priority is None ==> a[2] == decimal_text(0)
            &&& a[3] == decimal_text(process as nat)
        }),
        ({
            let a = clamp_arguments(process, low, high);
            &&& a.len() == 6
            &&& a[0] == "-m"@ && a[1] == decimal_text(low as nat)
            &&& a[2] == "-M"@ && a[3] == decimal_text(high as nat)
            &&& a[4] == "-p"@ && a[5] == decimal_text(process as nat)
        }),
{
}

/// What is read of the scheduling of a process is what the kernel said of it, each
/// part by its own source.
pub proof fn each_source_says_its_part(
    root: Seq<char>,
    process: u32,
    affinity: Set<u32>,
    nice: i32,
    sched: Seq<char>,
    stat: Seq<char>,
)
    ensures
        scheduling_of(root, process, affinity, nice, sched, stat) is Ok ==> {
            let s = scheduling_of(root, process, affinity, nice, sched, stat)->Ok_0;
            &&& s.affinity == affinity
            &&& s.nice == nice
            &&& s.rt_priority is Some <==> s.policy == SchedulingClass::Fifo
            &&& s.uclamp_min is Some && s.uclamp_max is Some ==> s.uclamp_min->0 <= s.uclamp_max->0
            &&& s.uclamp_max is Some ==> s.uclamp_max->0 <= 1024
        },
{
}

/// A line of the scheduler's file sets the value that it names.
pub proof fn a_line_sets_what_it_names(
    path: Seq<char>,
    f: SchedFields,
    line: Seq<char>,
    key: Seq<char>,
    rest: Seq<char>,
    n: nat,
)
    requires
        parted(line, ':') == Some((key, rest)),
        words(rest, Divider::Space).len() > 0,
        words(rest, Divider::Space)[0] == decimal_text(n),
        n <= 1024,
    ensures
        trimmed(key) == "uclamp.min"@ ==> sched_line(path, f, line) is Ok && sched_line(
            path,
            f,
            line,
        )->Ok_0 == (SchedFields { uclamp_min: Some(n as u16), ..f }),
        trimmed(key) == "uclamp.max"@ ==> sched_line(path, f, line) is Ok && sched_line(
            path,
            f,
            line,
        )->Ok_0 == (SchedFields { uclamp_max: Some(n as u16), ..f }),
        trimmed(key) == "policy"@ && n == 0 ==> sched_line(path, f, line) is Ok && sched_line(
            path,
            f,
            line,
        )->Ok_0 == (SchedFields { policy: Some(SchedulingClass::Other), ..f }),
        trimmed(key) == "policy"@ && n == 1 ==> sched_line(path, f, line) is Ok && sched_line(
            path,
            f,
            line,
        )->Ok_0 == (SchedFields { policy: Some(SchedulingClass::Fifo), ..f }),
{
    reveal_strlit("uclamp.min");
    reveal_strlit("uclamp.max");
    reveal_strlit("policy");
    assert("uclamp.min"@[8] == 'i' && "uclamp.max"@[8] == 'a');
    assert("policy"@.len() == 6 && "uclamp.min"@.len() == 10 && "uclamp.max"@.len() == 10);
    written_numbers_are_read(n, u16::MAX as nat);
    written_numbers_are_read(n, u32::MAX as nat);
    policy_numbers_are_the_kernels(path, n as u32);
}

/// The record of a process holds its real-time priority before its policy.
pub proof fn a_record_holds_its_priority(
    path: Seq<char>,
    contents: Seq<char>,
    fields: Seq<Seq<char>>,
    priority: nat,
)
    requires
        stat_fields(contents) == Some(fields),
        fields.len() > 38,
        fields[37] == decimal_text(priority),
        fields[38] == decimal_text(1),
        priority <= u32::MAX,
    ensures
        parsed_stat(path, contents) is Ok <==> 1 <= priority <= 99,
        1 <= priority <= 99 ==> parsed_stat(path, contents) == Ok::<
            ParsedSchedulerStat,
            PlatformErrorView,
        >(
            (ParsedSchedulerStat {
                policy: SchedulingClass::Fifo,
                rt_priority: Some(priority as u8),
            }),
        ),
{
    written_numbers_are_read(priority, u32::MAX as nat);
    written_numbers_are_read(1, u32::MAX as nat);
    policy_numbers_are_the_kernels(path, 1);
}

/// Unit properties are accepted exactly if the weight is one that systemd takes
/// and the CPUs are some, and online.
pub proof fn sound_properties_are_accepted(
    desired: UnitView,
    online_path: Seq<char>,
    online: Set<u32>,
)
    ensures
        properties_error(desired, online_path, Ok(online)) is None <==> {
            &&& desired.cpu_weight is Some ==> 1 <= desired.cpu_weight->0 <= 10_000
            &&& desired.allowed_cpus is Some ==> {
                &&& exists|c: u32| desired.allowed_cpus->0.contains(c)
                &&& forall|c: u32| #[trigger]
                    desired.allowed_cpus->0.contains(c) ==> online.contains(c)
            }
        },
{
    if desired.allowed_cpus is Some {
        let cpus = desired.allowed_cpus->0;
        if forall|c: u32| !(#[trigger] cpus.contains(c)) {
            assert(cpus =~= Set::<u32>::empty());
        }
        if cpus == Set::<u32>::empty() {
            assert(forall|c: u32| !(#[trigger] cpus.contains(c)));
        }
    }
}

/// A change of unit properties sets what was asked for and reads it back. Where it
/// shows, the change succeeds; where it does not, the properties that were read
/// before anything was set are set again, and the change fails.
pub proof fn a_unit_change_holds_or_is_undone(
    start: ChangeView,
    raw: RawView,
    first: ChangeView,
    set: UnitAction,
    second: ChangeView,
    look: UnitAction,
    read: Result<UnitView, PlatformErrorView>,
    third: ChangeView,
    verdict: UnitAction,
    refused: Option<PlatformErrorView>,
    fourth: ChangeView,
    end: UnitAction,
)
    requires
        original_taken(start, Ok(raw), first, set),
        change_taken(first, None, second, look),
        read_back_taken(second, read, third, verdict),
        third.phase is Undo ==> undo_taken(third, refused, fourth, end),
        start.desired.cpu_weight is Some ==> 1 <= start.desired.cpu_weight->0 <= 10_000,
        start.desired.allowed_cpus != Some(Set::<u32>::empty()),
    ensures
        set is Write,
        unit_of(start.unit, set->Write_0@) == Ok::<UnitView, PlatformErrorView>(start.desired),
        look is Read,
        read == Ok::<UnitView, PlatformErrorView>(start.desired) <==> third.phase is Finished,
        third.phase is Finished ==> verdict is Finish && verdict->Finish_0 is Ok
            && verdict->Finish_0->Ok_0@ == start.desired,
        !(third.phase is Finished) ==> {
            &&& verdict is Write
            &&& verdict->Write_0@ == raw
            &&& fourth.phase is Finished
            &&& end is Finish
            &&& end->Finish_0 is Err
        },
{
    properties_read_back(start.unit, set->Write_0@, start.desired);
}

/// A unit whose properties cannot be read, or that refuses the change, fails the
/// change with that reason.
pub proof fn a_refused_unit_change_fails(
    t: ChangeView,
    e: PlatformErrorView,
    after: ChangeView,
    action: UnitAction,
)
    requires
        original_taken(t, Err(e), after, action) || change_taken(t, Some(e), after, action),
    ensures
        after.phase is Finished,
        action is Finish,
        action->Finish_0 is Err,
        action->Finish_0->Err_0@ == e,
{
}

/// A weight that systemd reports is one, none, or refused.
pub proof fn reported_weights_are_sound(unit: Seq<char>, raw: RawView)
    requires
        raw.allowed_cpus.len() == 0,
    ensures
        raw.cpu_weight == 0 || raw.cpu_weight == u64::MAX ==> unit_of(unit, raw) == Ok::<
            UnitView,
            PlatformErrorView,
        >((UnitView { cpu_weight: None, allowed_cpus: None })),
        1 <= raw.cpu_weight <= 10_000 ==> unit_of(unit, raw) == Ok::<UnitView, PlatformErrorView>(
            (UnitView { cpu_weight: Some(raw.cpu_weight), allowed_cpus: None }),
        ),
        10_000 < raw.cpu_weight < u64::MAX ==> unit_of(unit, raw) is Err,
{
}

/// A mask of CPUs has one bit for each, eight to a byte, the lowest first.
pub proof fn mask_bits_are_cpus(bytes: Seq<u8>, cpus: Set<u32>, c: u32)
    requires
        is_mask_of(bytes, cpus),
    ensures
        cpus.contains(c) <==> (c / 8) < bytes.len() && bytes[(c / 8) as int] & (1u8 << (c % 8))
            != 0,
{
}

/// A unit name is accepted exactly if it is neither empty nor too long, holds only
/// the characters of one, and names a service, a scope or a slice, whose interface
/// is then used.
pub proof fn units_are_told_by_their_suffix(unit: Seq<char>)
    ensures
        unit_interface(unit) is Ok <==> {
            &&& 1 <= encode_utf8(unit).len() <= 256
            &&& unit_chars(unit)
            &&& has_suffix(unit, ".service"@) || has_suffix(unit, ".scope"@) || has_suffix(
                unit,
                ".slice"@,
            )
        },
        unit_interface(unit) is Ok && has_suffix(unit, ".service"@) ==> unit_interface(unit)->Ok_0
            == "org.freedesktop.systemd1.Service"@,
        unit_interface(unit) is Ok && !has_suffix(unit, ".service"@) && has_suffix(unit, ".scope"@)
            ==> unit_interface(unit)->Ok_0 == "org.freedesktop.systemd1.Scope"@,
        unit_interface(unit) is Ok && !has_suffix(unit, ".service"@) && !has_suffix(
            unit,
            ".scope"@,
        ) ==> unit_interface(unit)->Ok_0 == "org.freedesktop.systemd1.Slice"@,
{
}

/// An activation is known by its invocation, if it has one, and else by its
/// control group, which is absolute.
pub proof fn an_activation_is_known_by_its_invocation(
    unit: Seq<char>,
    id: Seq<u8>,
    group: Option<Seq<char>>,
)
    requires
        unit_interface(unit) is Ok,
    ensures
        nonzero(id) && id.len() == 16 ==> instance_key(unit, Some(id), group) == Ok::<
            KeyView,
            PlatformErrorView,
        >(KeyView::InvocationId(id)),
        nonzero(id) && id.len() != 16 ==> instance_key(unit, Some(id), group) is Err,
        !nonzero(id) ==> instance_key(unit, Some(id), group) == instance_key(unit, None, group),
        instance_key(unit, None, group) is Ok ==> {
            &&& group is Some
            &&& instance_key(unit, None, group)->Ok_0 == KeyView::ControlGroup(group->0)
            &&& group->0.len() > 1
            &&& group->0[0] == '/'
            &&& !group->0.contains('\0')
        },
{
}

} // verus!
