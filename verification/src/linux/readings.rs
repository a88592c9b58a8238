//! What the kernel's numbers mean, stated over what goes in and what comes out.

use vstd::prelude::*;
use crate::model::{FrequencyLimits, SchedulingClass, SensorHealth};
use crate::number::{decimal_text, decimal_text_reads_back, parsed_i64, parsed_unsigned};
use crate::platform::{PlatformErrorView, SchedulingView};
use crate::text::has_suffix;
use super::discovery::{
    devfreq_limits, devfreq_paths, hz, khz, policy_limits, policy_paths, read_view, PolicyFiles,
};
use super::formats::{cpu_word, cpu_words, offered};
use super::procfs::{cpu_line, numbers_in};
use super::scheduler::{desired_error, linux_class, pid_error};
use super::survey::zone_reading;

verus! {

/// A number that was written in decimal digits is read as it was written, if it is
/// in range.
pub proof fn written_numbers_are_read(n: nat, max: nat)
    ensures
        n <= max ==> parsed_unsigned(decimal_text(n), max) == Some(n),
        n > max ==> parsed_unsigned(decimal_text(n), max) is None,
        n <= i64::MAX ==> parsed_i64(decimal_text(n)) == Some(n as int),
{
    decimal_text_reads_back(n);
    let t = decimal_text(n);
    assert(t.len() > 0);
    assert(crate::number::is_digit(t[0]));
}

/// A file of kilohertz gives a thousand times its number in hertz, and a file of
/// hertz its number.
pub proof fn units_are_hertz(path: Seq<char>, n: nat)
    ensures
        n * 1_000 <= u64::MAX ==> khz(path, Ok(decimal_text(n))) == Ok::<u64, PlatformErrorView>(
            (n * 1_000) as u64,
        ),
        n * 1_000 > u64::MAX ==> khz(path, Ok(decimal_text(n))) is Err,
        n <= u64::MAX ==> hz(path, Ok(decimal_text(n))) == Ok::<u64, PlatformErrorView>(n as u64),
{
    written_numbers_are_read(n, u64::MAX as nat);
}

/// The window of a processor policy lies between its own lowest and highest
/// frequency, in hertz; a reversed one is refused.
pub proof fn a_policy_has_its_own_window(base: Seq<char>, files: PolicyFiles, low: nat, high: nat)
    requires
        read_view(files.minimum) == Ok::<Seq<char>, PlatformErrorView>(decimal_text(low)),
        read_view(files.maximum) == Ok::<Seq<char>, PlatformErrorView>(decimal_text(high)),
        low * 1_000 <= u64::MAX,
        high * 1_000 <= u64::MAX,
    ensures
        low <= high ==> policy_limits(base, files) is Ok && policy_limits(base, files)->Ok_0.min
            == low * 1_000 && policy_limits(base, files)->Ok_0.max == high * 1_000,
        low > high ==> policy_limits(base, files) is Err,
{
    units_are_hertz(crate::paths::joined(base, "cpuinfo_min_freq"@), low);
    units_are_hertz(crate::paths::joined(base, "cpuinfo_max_freq"@), high);
}

/// The lower bound of a policy is written to its file for that, the upper bound to
/// its own, both in kilohertz; those of a device in hertz.
pub proof fn bounds_are_written_apart(base: Seq<char>, id: Seq<char>)
    ensures
        policy_paths(base, id).id == id,
        policy_paths(base, id).hertz_per_unit == 1_000,
        has_suffix(policy_paths(base, id).minimum, "scaling_min_freq"@),
        has_suffix(policy_paths(base, id).maximum, "scaling_max_freq"@),
        has_suffix(policy_paths(base, id).current, "scaling_cur_freq"@),
        policy_paths(base, id).minimum != policy_paths(base, id).maximum,
        policy_paths(base, id).minimum != policy_paths(base, id).current,
        policy_paths(base, id).maximum != policy_paths(base, id).current,
        devfreq_paths(base, id).id == id,
        devfreq_paths(base, id).hertz_per_unit == 1,
        has_suffix(devfreq_paths(base, id).minimum, "min_freq"@),
        has_suffix(devfreq_paths(base, id).maximum, "max_freq"@),
        has_suffix(devfreq_paths(base, id).current, "cur_freq"@),
{
    reveal_strlit("scaling_min_freq");
    reveal_strlit("scaling_max_freq");
    reveal_strlit("scaling_cur_freq");
    reveal_strlit("min_freq");
    reveal_strlit("max_freq");
    reveal_strlit("cur_freq");
    let p = policy_paths(base, id);
    let d = devfreq_paths(base, id);
    let k = p.minimum.len() - 7;
    assert(p.minimum[k] == 'i' && p.maximum[k] == 'a' && p.current[k] == 'u');
    assert(p.minimum.skip(p.minimum.len() - 16) =~= "scaling_min_freq"@);
    assert(p.maximum.skip(p.maximum.len() - 16) =~= "scaling_max_freq"@);
    assert(p.current.skip(p.current.len() - 16) =~= "scaling_cur_freq"@);
    assert(d.minimum.skip(d.minimum.len() - 8) =~= "min_freq"@);
    assert(d.maximum.skip(d.maximum.len() - 8) =~= "max_freq"@);
    assert(d.current.skip(d.current.len() - 8) =~= "cur_freq"@);
}

/// Of a table of frequencies each one inside the window is offered, and the ends
/// of the window are; nothing else is.
pub proof fn the_table_is_offered(frequencies: Seq<u64>, limits: FrequencyLimits, f: u64)
    requires
        limits.min <= limits.max,
        frequencies.len() > 0,
    ensures
        frequencies.contains(f) && limits.min <= f <= limits.max ==> offered(
            frequencies,
            limits,
        ).contains(f),
        offered(frequencies, limits).contains(f) ==> frequencies.contains(f) || f == limits.min
            || f == limits.max,
        offered(frequencies, limits).contains(limits.min),
        offered(frequencies, limits).contains(limits.max),
        offered(Seq::<u64>::empty(), limits) == Set::<u64>::empty(),
{
}

/// A device with a table has the window of the table, if its present window lies
/// inside; one without a table its present window.
pub proof fn a_device_has_the_window_of_its_table(
    base: Seq<char>,
    window: FrequencyLimits,
    listed: Seq<u64>,
)
    ensures
        listed.len() == 0 ==> devfreq_limits(base, window, listed) == Ok::<
            FrequencyLimits,
            PlatformErrorView,
        >(window),
        listed.len() > 0 && listed[0] <= window.min && window.max <= listed[listed.len() - 1]
            ==> devfreq_limits(base, window, listed) is Ok && devfreq_limits(
            base,
            window,
            listed,
        )->Ok_0.min == listed[0] && devfreq_limits(base, window, listed)->Ok_0.max
            == listed[listed.len() - 1],
        listed.len() > 0 && (window.min < listed[0] || window.max > listed[listed.len() - 1])
            ==> devfreq_limits(base, window, listed) is Err,
{
}

/// A plausible temperature is believed as it is, in thousandths of a degree, and
/// read at its time; any other makes its sensor unavailable.
pub proof fn temperatures_are_believed_as_they_are(t: nat, now: u64)
    requires
        t <= i64::MAX,
    ensures
        t <= 200_000 ==> zone_reading(Some(decimal_text(t)), now).temperature == Some(t as i64)
            && zone_reading(Some(decimal_text(t)), now).health == SensorHealth::Healthy,
        t > 200_000 ==> zone_reading(Some(decimal_text(t)), now).temperature is None
            && zone_reading(Some(decimal_text(t)), now).health == SensorHealth::Unavailable,
        zone_reading(Some(decimal_text(t)), now).sampled_at == now,
        zone_reading(None, now).health == SensorHealth::Unavailable,
{
    written_numbers_are_read(t, i64::MAX as nat);
}

/// A range of CPUs holds both of its ends and all between them.
pub proof fn a_range_holds_its_ends(path: Seq<char>, token: Seq<char>, a: u32, b: u32, c: u32)
    requires
        crate::text::parted(token, '-') == Some((decimal_text(a as nat), decimal_text(b as nat))),
    ensures
        a <= b ==> cpu_word(path, token) is Ok && (cpu_word(path, token)->Ok_0.contains(c) <==> a
            <= c <= b),
        a > b ==> cpu_word(path, token) is Err,
{
    written_numbers_are_read(a as nat, u32::MAX as nat);
    written_numbers_are_read(b as nat, u32::MAX as nat);
}

/// A list of CPUs holds what its parts hold, and nothing else.
pub proof fn a_list_holds_its_parts(path: Seq<char>, tokens: Seq<Seq<char>>, n: nat, c: u32)
    requires
        n <= tokens.len(),
        cpu_words(path, tokens, n) is Ok,
    ensures
        cpu_words(path, tokens, n)->Ok_0.contains(c) <==> exists|i: int|
            0 <= i < n && #[trigger] cpu_word(path, tokens[i]) is Ok && cpu_word(
                path,
                tokens[i],
            )->Ok_0.contains(c),
    decreases n,
{
    if n > 0 {
        a_list_holds_its_parts(path, tokens, (n - 1) as nat, c);
        assert(cpu_word(path, tokens[n - 1]) is Ok);
    }
}

/// A policy number of the kernel is its class: normal, first come, batch or idle.
/// Round robin, deadline and extensible scheduling are refused.
pub proof fn policy_numbers_are_the_kernels(path: Seq<char>, raw: u32)
    requires
        raw < 0x4000_0000,
    ensures
        linux_class(path, raw) == Ok::<SchedulingClass, PlatformErrorView>(SchedulingClass::Other)
            <==> raw == 0,
        linux_class(path, raw) == Ok::<SchedulingClass, PlatformErrorView>(SchedulingClass::Fifo)
            <==> raw == 1,
        linux_class(path, raw) == Ok::<SchedulingClass, PlatformErrorView>(SchedulingClass::Batch)
            <==> raw == 3,
        linux_class(path, raw) == Ok::<SchedulingClass, PlatformErrorView>(SchedulingClass::Idle)
            <==> raw == 5,
{
    assert(raw & !0x4000_0000u32 == raw) by (bit_vector)
        requires
            raw < 0x4000_0000,
    ;
}

/// A scheduling is accepted exactly if its CPUs are some, online and fit a mask,
/// its nice value is one, a real-time priority goes with the real-time policy
/// alone, the clamps are in order and in range, and the kernel shows clamps where
/// any are asked for.
pub proof fn a_sound_scheduling_is_accepted(
    online_path: Seq<char>,
    online: Set<u32>,
    original: SchedulingView,
    desired: SchedulingView,
)
    ensures
        desired_error(online_path, online, original, desired) is None <==> {
            &&& exists|c: u32| desired.affinity.contains(c)
            &&& forall|c: u32| #[trigger]
                desired.affinity.contains(c) ==> online.contains(c) && c < 1024
            &&& -20 <= desired.nice <= 19
            &&& desired.policy == SchedulingClass::Fifo ==> desired.rt_priority is Some && 1
                <= desired.rt_priority->0 <= 99
            &&& desired.policy != SchedulingClass::Fifo ==> desired.rt_priority is None
            &&& desired.uclamp_min is Some ==> desired.uclamp_min->0 <= 1024
            &&& desired.uclamp_max is Some ==> desired.uclamp_max->0 <= 1024
            &&& desired.uclamp_min is Some && desired.uclamp_max is Some ==> desired.uclamp_min->0
                <= desired.uclamp_max->0
            &&& desired.uclamp_min is Some || desired.uclamp_max is Some
                ==> original.uclamp_min is Some && original.uclamp_max is Some
        },
{
    if forall|c: u32| !(#[trigger] desired.affinity.contains(c)) {
        assert(desired.affinity =~= Set::<u32>::empty());
    }
    if desired.affinity == Set::<u32>::empty() {
        assert(forall|c: u32| !(#[trigger] desired.affinity.contains(c)));
    }
}

/// Zero, and what is no process number of the kernel, is refused.
pub proof fn process_numbers_are_positive(process: u32)
    ensures
        pid_error(process) is None <==> 1 <= process <= 0x7fff_ffff,
{
}

/// A counter line gives its numbers in the order of the kernel; those that an old
/// kernel leaves out are zero.
pub proof fn counters_stand_in_their_order(path: Seq<char>, line: Seq<char>)
    requires
        cpu_line(path, line) is Ok,
    ensures
        ({
            let w = crate::text::words(line, crate::text::Divider::Space);
            let t = cpu_line(path, line)->Ok_0;
            &&& w.len() >= 5
            &&& parsed_unsigned(w[1], u64::MAX as nat) == Some(t.user as nat)
            &&& parsed_unsigned(w[2], u64::MAX as nat) == Some(t.nice as nat)
            &&& parsed_unsigned(w[3], u64::MAX as nat) == Some(t.system as nat)
            &&& parsed_unsigned(w[4], u64::MAX as nat) == Some(t.idle as nat)
            &&& w.len() > 5 ==> parsed_unsigned(w[5], u64::MAX as nat) == Some(t.io_wait as nat)
            &&& w.len() > 6 ==> parsed_unsigned(w[6], u64::MAX as nat) == Some(t.irq as nat)
            &&& w.len() > 7 ==> parsed_unsigned(w[7], u64::MAX as nat) == Some(t.soft_irq as nat)
            &&& w.len() > 8 ==> parsed_unsigned(w[8], u64::MAX as nat) == Some(t.steal as nat)
            &&& w.len() <= 5 ==> t.io_wait == 0
            &&& w.len() <= 6 ==> t.irq == 0
            &&& w.len() <= 7 ==> t.soft_irq == 0
            &&& w.len() <= 8 ==> t.steal == 0
        }),
{
    let w = crate::text::words(line, crate::text::Divider::Space);
    let v = if w.len() == 0 {
        w
    } else {
        w.skip(1)
    };
    numbers_are_read_in_turn(path, "invalid counter: "@, v, v.len());
    let c = numbers_in(path, "invalid counter: "@, v, v.len(), u64::MAX as nat)->Ok_0;
    assert(v[0] == w[1] && v[1] == w[2] && v[2] == w[3] && v[3] == w[4]);
    assert(c[0] == c[0] && c[1] == c[1] && c[2] == c[2] && c[3] == c[3]);
    if w.len() > 5 {
        assert(v[4] == w[5] && c[4] == c[4]);
    }
    if w.len() > 6 {
        assert(v[5] == w[6] && c[5] == c[5]);
    }
    if w.len() > 7 {
        assert(v[6] == w[7] && c[6] == c[6]);
    }
    if w.len() > 8 {
        assert(v[7] == w[8] && c[7] == c[7]);
    }
}

proof fn numbers_are_read_in_turn(
    path: Seq<char>,
    complaint: Seq<char>,
    values: Seq<Seq<char>>,
    n: nat,
)
    requires
        n <= values.len(),
        numbers_in(path, complaint, values, n, u64::MAX as nat) is Ok,
    ensures
        ({
            let c = numbers_in(path, complaint, values, n, u64::MAX as nat)->Ok_0;
            &&& c.len() == n
            &&& forall|i: int|
                0 <= i < n ==> parsed_unsigned(values[i], u64::MAX as nat) == Some(#[trigger] c[i])
        }),
    decreases n,
{
    if n > 0 {
        numbers_are_read_in_turn(path, complaint, values, (n - 1) as nat);
        let c = numbers_in(path, complaint, values, n, u64::MAX as nat)->Ok_0;
        let before = numbers_in(path, complaint, values, (n - 1) as nat, u64::MAX as nat)->Ok_0;
        assert forall|i: int| 0 <= i < n implies parsed_unsigned(values[i], u64::MAX as nat) == Some(
            #[trigger] c[i],
        ) by {
            if i < n - 1 {
                assert(c[i] == before[i]);
            }
        }
    }
}

} // verus!
