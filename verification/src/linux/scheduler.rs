//! Process and thread scheduling controls.
//!
//! A change of scheduling is a transaction: affinity, nice value, policy and
//! utilization clamps are changed one after the other, read back, and undone in
//! reverse order where a step fails or the kernel shows something else.

use rustix::process::Pid;
use rustix::thread::CpuSet as AffinityMask;
use vstd::prelude::*;
use crate::cpuset::{ids_ascending, CpuIds};
use crate::model::{seq_view, SchedulingClass};
use crate::number::{
    decimal_text, format_i64, format_u64, parse_u32, parse_unsigned, parsed_unsigned, signed_text,
    unsigned_error, unsigned_error_text,
};
use crate::platform::{
    malformed, IoFailure, IoKind, PlatformError, PlatformErrorView, PlatformResult,
    ProcessSchedulingState, SchedulingView,
};
use crate::text::{
    cat2, cat3, cat4, chars_of, lines, lines_of, parted, pieces, same, split, split_once,
    split_words, string_of, texts, trim, trimmed, words, Divider,
};
use super::systemd::online_view;
use super::transaction::{
    answered, calls_left, reply_error, run, run_joined, run_prefix, run_unfolds,
    started, state_view, success_is_what_was_asked_for, ReplyView, SchedulingAction,
    SchedulingActionView, SchedulingTransaction, Turn,
};

verus! {

/// The largest utilization clamp.
pub const UCLAMP_MAX: u16 = 1024;

/// The largest real-time priority.
pub const LINUX_RT_PRIORITY_MAX: u8 = 99;

/// How many CPUs an affinity mask can hold.
pub const AFFINITY_CPUS: usize = 1024;

/// The affinity mask of `rustix`, as an opaque value.
#[verifier::external_type_specification]
#[verifier::external_body]
pub struct ExAffinityMask(rustix::thread::CpuSet);

/// The process identifier of `rustix`, as an opaque value.
#[verifier::external_type_specification]
#[verifier::external_body]
pub struct ExPid(rustix::process::Pid);

/// The CPUs that an affinity mask holds.
pub uninterp spec fn mask_cpus(mask: AffinityMask) -> Set<int>;

/// The number that a process identifier stands for.
pub uninterp spec fn pid_number(pid: Pid) -> int;

/// `rustix::thread::CpuSet::new` gives a mask without any CPU.
pub assume_specification[ rustix::thread::CpuSet::new ]() -> (mask: rustix::thread::CpuSet)
    ensures
        mask_cpus(mask) == Set::<int>::empty(),
;

/// `rustix::thread::CpuSet::set` adds one CPU to a mask. It indexes an array of
/// words and panics on a number that the mask cannot hold.
pub assume_specification[ rustix::thread::CpuSet::set ](
    mask: &mut rustix::thread::CpuSet,
    field: usize,
)
    requires
        field < AFFINITY_CPUS,
    ensures
        mask_cpus(*final(mask)) == mask_cpus(*old(mask)).insert(field as int),
;

/// `rustix::thread::CpuSet::is_set` says whether a CPU is in a mask. It indexes
/// an array of words and panics on a number that the mask cannot hold.
pub assume_specification[ rustix::thread::CpuSet::is_set ](
    mask: &rustix::thread::CpuSet,
    field: usize,
) -> (r: bool)
    requires
        field < AFFINITY_CPUS,
    ensures
        r == mask_cpus(*mask).contains(field as int),
;

/// `rustix::process::Pid::from_raw` gives an identifier for every number but
/// zero; a negative number trips its debug assertion.
pub assume_specification[ rustix::process::Pid::from_raw ](raw: i32) -> (pid: Option<
    rustix::process::Pid,
>)
    requires
        raw >= 0,
    ensures
        match pid {
            Some(p) => raw != 0 && pid_number(p) == raw,
            None => raw == 0,
        },
;

/// The text that std gives for an integer that does not fit.
pub const OUT_OF_RANGE: &'static str = "out of range integral type conversion attempted";

/// The scheduler file of a process.
pub open spec fn sched_path(root: Seq<char>, process: u32) -> Seq<char> {
    root + "/"@ + decimal_text(process as nat) + "/sched"@
}

/// The scheduler file of a process.
pub fn scheduling_path(root: &str, process: u32) -> (out: String)
    ensures
        out@ == sched_path(root@, process),
{
    let number = format_u64(process as u64);
    cat4(root, "/", number.as_str(), "/sched")
}

/// Why a number is no process identifier, if so.
pub open spec fn pid_error(process: u32) -> Option<PlatformErrorView> {
    if process > i32::MAX {
        Some(
            malformed(
                sched_path("/proc"@, process),
                "PID "@ + decimal_text(process as nat) + " is outside Linux pid_t range: "@
                    + OUT_OF_RANGE@,
            ),
        )
    } else if process == 0 {
        Some(
            malformed(
                sched_path("/proc"@, process),
                "PID/TID zero is not accepted because it aliases the caller"@,
            ),
        )
    } else {
        None
    }
}

/// The number of a process as the kernel takes it.
pub fn raw_process_id(process: u32) -> (r: PlatformResult<i32>)
    ensures
        match r {
            Ok(raw) => pid_error(process) is None && raw == process && raw > 0,
            Err(e) => pid_error(process) == Some(e@),
        },
{
    let path = scheduling_path("/proc", process);
    if process > i32::MAX as u32 {
        let number = format_u64(process as u64);
        let message = cat4(
            "PID ",
            number.as_str(),
            " is outside Linux pid_t range: ",
            OUT_OF_RANGE,
        );
        return Err(PlatformError::invalid(path.as_str(), message.as_str()));
    }
    if process == 0 {
        return Err(
            PlatformError::invalid(
                path.as_str(),
                "PID/TID zero is not accepted because it aliases the caller",
            ),
        );
    }
    Ok(process as i32)
}

/// The identifier of a process for kernel calls.
pub fn rustix_pid(process: u32) -> (r: PlatformResult<Pid>)
    ensures
        match r {
            Ok(pid) => pid_error(process) is None && pid_number(pid) == process,
            Err(e) => pid_error(process) == Some(e@),
        },
{
    match raw_process_id(process) {
        Err(e) => Err(e),
        Ok(raw) => match Pid::from_raw(raw) {
            Some(pid) => Ok(pid),
            None => Err(PlatformError::invalid("/proc", "invalid zero PID")),
        },
    }
}

/// Why a CPU set has no affinity mask, if so: a CPU is too large for it.
pub open spec fn mask_error(cpu: u32) -> PlatformErrorView {
    malformed(
        "/sys/devices/system/cpu/online"@,
        "CPU "@ + decimal_text(cpu as nat) + " exceeds affinity ABI limit "@ + decimal_text(
            (AFFINITY_CPUS - 1) as nat,
        ),
    )
}

/// Whether every CPU fits an affinity mask.
pub open spec fn fits_mask(cpus: Set<u32>) -> bool {
    forall|c: u32| #[trigger] cpus.contains(c) ==> c < AFFINITY_CPUS
}

/// The affinity mask of a CPU set.
pub fn domain_to_rustix_cpuset(affinity: &CpuIds) -> (r: PlatformResult<AffinityMask>)
    ensures
        match r {
            Ok(mask) => fits_mask(affinity@) && forall|c: u32|
                #![trigger affinity@.contains(c)]
                mask_cpus(mask).contains(c as int) <==> affinity@.contains(c),
            Err(e) => !fits_mask(affinity@) && e@ == mask_error(smallest_over(affinity@)),
        },
{
    if let Some(cpu) = first_over(affinity) {
        let number = format_u64(cpu as u64);
        let limit = format_u64((AFFINITY_CPUS - 1) as u64);
        let message = cat4("CPU ", number.as_str(), " exceeds affinity ABI limit ", limit.as_str());
        return Err(
            PlatformError::invalid("/sys/devices/system/cpu/online", message.as_str()),
        );
    }
    let mut mask = AffinityMask::new();
    let n: usize = affinity.len();
    let mut i: usize = 0;
    while i < n
        invariant
            i <= n,
            n == affinity.ids().len(),
            affinity.ids().to_set() == affinity@,
            fits_mask(affinity@),
            forall|c: int|
                #![trigger mask_cpus(mask).contains(c)]
                mask_cpus(mask).contains(c) <==> exists|j: int|
                    0 <= j < i && #[trigger] affinity.ids()[j] == c,
        decreases n - i,
    {
        let cpu: u32 = affinity.at(i);
        let ghost before = mask_cpus(mask);
        mask.set(cpu as usize);
        proof {
            assert forall|c: int|
                #![trigger mask_cpus(mask).contains(c)]
                mask_cpus(mask).contains(c) <==> exists|j: int|
                    0 <= j < i + 1 && #[trigger] affinity.ids()[j] == c by {
                assert(mask_cpus(mask).contains(c) <==> before.contains(c) || c == cpu);
                if before.contains(c) {
                    let j = choose|j: int| 0 <= j < i && #[trigger] affinity.ids()[j] == c;
                    assert(affinity.ids()[j] == c);
                }
                if c == cpu {
                    assert(affinity.ids()[i as int] == c);
                }
            }
        }
        i = i + 1;
    }
    proof {
        assert forall|c: u32| #[trigger] affinity@.contains(c) implies c < AFFINITY_CPUS by {
            assert(affinity.ids().contains(c));
            let j = choose|j: int| 0 <= j < affinity.ids().len() && affinity.ids()[j] == c;
            assert(affinity.ids()[j] < AFFINITY_CPUS);
        }
        assert forall|c: u32|
            #![trigger affinity@.contains(c)]
            mask_cpus(mask).contains(c as int) <==> affinity@.contains(c) by {
            if affinity@.contains(c) {
                assert(affinity.ids().contains(c));
                let j = choose|j: int| 0 <= j < affinity.ids().len() && affinity.ids()[j] == c;
                assert(affinity.ids()[j] == c as int);
            }
            if mask_cpus(mask).contains(c as int) {
                let j = choose|j: int| 0 <= j < n && #[trigger] affinity.ids()[j] == c as int;
                assert(affinity.ids().contains(c));
            }
        }
    }
    Ok(mask)
}

/// The CPU set of an affinity mask.
pub fn rustix_to_domain_cpuset(mask: &AffinityMask) -> (out: CpuIds)
    ensures
        forall|c: u32| #[trigger]
            out@.contains(c) <==> c < AFFINITY_CPUS && mask_cpus(*mask).contains(c as int),
{
    let mut out = CpuIds::new();
    let mut cpu: usize = 0;
    while cpu < AFFINITY_CPUS
        invariant
            cpu <= AFFINITY_CPUS,
            forall|c: u32| #[trigger]
                out@.contains(c) <==> c < cpu && mask_cpus(*mask).contains(c as int),
        decreases AFFINITY_CPUS - cpu,
    {
        if mask.is_set(cpu) {
            out.insert(cpu as u32);
        }
        cpu = cpu + 1;
    }
    out
}

/// The CPUs of a mask made from a set are that set again.
pub proof fn mask_round_trip(set: Set<u32>, mask: AffinityMask, back: Set<u32>)
    requires
        fits_mask(set),
        forall|c: u32|
            #![trigger set.contains(c)]
            mask_cpus(mask).contains(c as int) <==> set.contains(c),
        forall|c: u32| #[trigger]
            back.contains(c) <==> c < AFFINITY_CPUS && mask_cpus(mask).contains(c as int),
    ensures
        back == set,
{
    assert(back =~= set) by {
        assert forall|c: u32| back.contains(c) <==> set.contains(c) by {
            assert(mask_cpus(mask).contains(c as int) <==> set.contains(c));
        }
    }
}

/// Why a policy and a priority do not go together, if so.
pub open spec fn priority_error(
    path: Seq<char>,
    policy: SchedulingClass,
    rt_priority: Option<u8>,
) -> Option<PlatformErrorView> {
    match (policy, rt_priority) {
        (SchedulingClass::Fifo, Some(p)) => if 1 <= p && p <= LINUX_RT_PRIORITY_MAX {
            None
        } else {
            Some(
                malformed(
                    path,
                    "FIFO priority "@ + decimal_text(p as nat) + " is outside 1..=99"@,
                ),
            )
        },
        (SchedulingClass::Fifo, None) => Some(
            malformed(path, "SCHED_FIFO requires an explicit real-time priority"@),
        ),
        (_, Some(p)) => Some(
            malformed(
                path,
                "non-real-time policy cannot carry rt_priority "@ + decimal_text(p as nat),
            ),
        ),
        (_, None) => None,
    }
}

/// Checks that a policy and a priority go together.
pub fn validate_policy_priority(path: &str, policy: SchedulingClass, rt_priority: Option<u8>) -> (r:
    PlatformResult<()>)
    ensures
        match r {
            Ok(()) => priority_error(path@, policy, rt_priority) is None,
            Err(e) => priority_error(path@, policy, rt_priority) == Some(e@),
        },
{
    match policy {
        SchedulingClass::Fifo => match rt_priority {
            Some(p) => if 1 <= p && p <= LINUX_RT_PRIORITY_MAX {
                Ok(())
            } else {
                let number = format_u64(p as u64);
                let message = cat3("FIFO priority ", number.as_str(), " is outside 1..=99");
                Err(PlatformError::invalid(path, message.as_str()))
            },
            None => Err(
                PlatformError::invalid(path, "SCHED_FIFO requires an explicit real-time priority"),
            ),
        },
        _ => match rt_priority {
            Some(p) => {
                let number = format_u64(p as u64);
                let message = cat2("non-real-time policy cannot carry rt_priority ", number.as_str());
                Err(PlatformError::invalid(path, message.as_str()))
            },
            None => Ok(()),
        },
    }
}

/// Why two clamps do not go together, if so.
pub open spec fn uclamp_error(minimum: Option<u16>, maximum: Option<u16>) -> Option<
    PlatformErrorView,
> {
    let path = "/proc/<tid>/sched"@;
    if (minimum is Some && minimum->0 > UCLAMP_MAX) || (maximum is Some && maximum->0
        > UCLAMP_MAX) {
        Some(malformed(path, "uclamp values must be within 0..=1024"@))
    } else if minimum is Some && maximum is Some && minimum->0 > maximum->0 {
        Some(
            malformed(
                path,
                "uclamp minimum "@ + decimal_text(minimum->0 as nat) + " exceeds maximum "@
                    + decimal_text(maximum->0 as nat),
            ),
        )
    } else {
        None
    }
}

/// Checks that two clamps go together.
pub fn validate_uclamp(minimum: Option<u16>, maximum: Option<u16>) -> (r: PlatformResult<()>)
    ensures
        match r {
            Ok(()) => uclamp_error(minimum, maximum) is None,
            Err(e) => uclamp_error(minimum, maximum) == Some(e@),
        },
{
    let low_bad = match minimum {
        Some(v) => v > UCLAMP_MAX,
        None => false,
    };
    let high_bad = match maximum {
        Some(v) => v > UCLAMP_MAX,
        None => false,
    };
    if low_bad || high_bad {
        return Err(
            PlatformError::invalid("/proc/<tid>/sched", "uclamp values must be within 0..=1024"),
        );
    }
    if let Some(a) = minimum {
        if let Some(b) = maximum {
            if a > b {
                let x = format_u64(a as u64);
                let y = format_u64(b as u64);
                let message = cat4("uclamp minimum ", x.as_str(), " exceeds maximum ", y.as_str());
                return Err(PlatformError::invalid("/proc/<tid>/sched", message.as_str()));
            }
        }
    }
    Ok(())
}

/// The clamp that a text gives, or why it gives none.
pub open spec fn parsed_uclamp(path: Seq<char>, field: Seq<char>, value: Seq<char>) -> Result<
    u16,
    PlatformErrorView,
> {
    match parsed_unsigned(value, u16::MAX as nat) {
        None => Err(
            malformed(
                path,
                "invalid "@ + field + ": "@ + unsigned_error(value, u16::MAX as nat),
            ),
        ),
        Some(n) => if n > UCLAMP_MAX {
            Err(malformed(path, field + " "@ + decimal_text(n) + " exceeds 1024"@))
        } else {
            Ok(n as u16)
        },
    }
}

/// The clamp that a text gives.
pub fn parse_uclamp_value(path: &str, field: &str, value: &str) -> (r: PlatformResult<u16>)
    ensures
        match r {
            Ok(v) => parsed_uclamp(path@, field@, value@) == Ok::<u16, PlatformErrorView>(v),
            Err(e) => parsed_uclamp(path@, field@, value@) == Err::<u16, PlatformErrorView>(e@),
        },
{
    match parse_unsigned(value, u16::MAX as u64) {
        None => {
            let why = unsigned_error_text(value, u16::MAX as u64);
            let message = cat4("invalid ", field, ": ", why);
            Err(PlatformError::invalid(path, message.as_str()))
        },
        Some(n) => if n > UCLAMP_MAX as u64 {
            let number = format_u64(n);
            let message = cat4(field, " ", number.as_str(), " exceeds 1024");
            Err(PlatformError::invalid(path, message.as_str()))
        } else {
            Ok(n as u16)
        },
    }
}

/// A policy number without the flag that children do not inherit it.
pub open spec fn base_policy(raw: u32) -> u32 {
    raw & !0x4000_0000u32
}

/// The class that a policy number of the kernel stands for, or why it is out of
/// reach.
pub open spec fn linux_class(path: Seq<char>, raw: u32) -> Result<
    SchedulingClass,
    PlatformErrorView,
> {
    let base = base_policy(raw);
    if base == 0 {
        Ok(SchedulingClass::Other)
    } else if base == 1 {
        Ok(SchedulingClass::Fifo)
    } else if base == 3 {
        Ok(SchedulingClass::Batch)
    } else if base == 5 {
        Ok(SchedulingClass::Idle)
    } else if base == 2 || base == 6 || base == 7 {
        Err(
            PlatformErrorView::Unsupported(
                "SCHED_RR, deadline, and sched_ext tasks are outside controlled scheduling classes"@,
            ),
        )
    } else {
        Err(malformed(path, "unknown Linux scheduler policy "@ + decimal_text(base as nat)))
    }
}

/// The class that a policy number of the kernel stands for.
pub fn scheduling_class_from_linux(path: &str, raw: u32) -> (r: PlatformResult<SchedulingClass>)
    ensures
        match r {
            Ok(c) => linux_class(path@, raw) == Ok::<SchedulingClass, PlatformErrorView>(c),
            Err(e) => linux_class(path@, raw) == Err::<SchedulingClass, PlatformErrorView>(e@),
        },
{
    let base: u32 = raw & !0x4000_0000u32;
    if base == 0 {
        Ok(SchedulingClass::Other)
    } else if base == 1 {
        Ok(SchedulingClass::Fifo)
    } else if base == 3 {
        Ok(SchedulingClass::Batch)
    } else if base == 5 {
        Ok(SchedulingClass::Idle)
    } else if base == 2 || base == 6 || base == 7 {
        Err(
            PlatformError::Unsupported(
                "SCHED_RR, deadline, and sched_ext tasks are outside controlled scheduling classes",
            ),
        )
    } else {
        let number = format_u64(base as u64);
        let message = cat2("unknown Linux scheduler policy ", number.as_str());
        Err(PlatformError::invalid(path, message.as_str()))
    }
}

/// The reset-on-fork flag does not change the class.
pub proof fn fork_flag_is_ignored(path: Seq<char>, raw: u32)
    ensures
        linux_class(path, raw | 0x4000_0000u32) == linux_class(path, raw),
{
    assert((raw | 0x4000_0000u32) & !0x4000_0000u32 == raw & !0x4000_0000u32) by (bit_vector);
}

/// What the scheduler file of a task says.
#[derive(Clone, Copy, Debug, PartialEq, Eq, Structural)]
pub struct ParsedScheduler {
    pub policy: SchedulingClass,
    pub uclamp_min: Option<u16>,
    pub uclamp_max: Option<u16>,
}

/// What was gathered of the scheduler file so far.
pub struct SchedFields {
    pub policy: Option<SchedulingClass>,
    pub uclamp_min: Option<u16>,
    pub uclamp_max: Option<u16>,
}

/// What one line of the scheduler file adds. Lines without a colon and unknown
/// fields add nothing.
pub open spec fn sched_line(path: Seq<char>, f: SchedFields, line: Seq<char>) -> Result<
    SchedFields,
    PlatformErrorView,
> {
    match parted(line, ':') {
        None => Ok(f),
        Some((key, rest)) => {
            let w = words(rest, Divider::Space);
            let name = trimmed(key);
            if w.len() == 0 {
                Err(malformed(path, "empty `"@ + name + "` field"@))
            } else if name == "policy"@ {
                match parsed_unsigned(w[0], u32::MAX as nat) {
                    None => Err(
                        malformed(
                            path,
                            "invalid scheduler policy: "@ + unsigned_error(
                                w[0],
                                u32::MAX as nat,
                            ),
                        ),
                    ),
                    Some(raw) => match linux_class(path, raw as u32) {
                        Ok(c) => Ok(SchedFields { policy: Some(c), ..f }),
                        Err(e) => Err(e),
                    },
                }
            } else if name == "uclamp.min"@ {
                match parsed_uclamp(path, "uclamp.min"@, w[0]) {
                    Ok(v) => Ok(SchedFields { uclamp_min: Some(v), ..f }),
                    Err(e) => Err(e),
                }
            } else if name == "uclamp.max"@ {
                match parsed_uclamp(path, "uclamp.max"@, w[0]) {
                    Ok(v) => Ok(SchedFields { uclamp_max: Some(v), ..f }),
                    Err(e) => Err(e),
                }
            } else {
                Ok(f)
            }
        },
    }
}

/// What the first `n` lines of the scheduler file give; the first bad line
/// decides.
pub open spec fn sched_lines(path: Seq<char>, all: Seq<Seq<char>>, n: nat) -> Result<
    SchedFields,
    PlatformErrorView,
>
    decreases n,
{
    if n == 0 {
        Ok(SchedFields { policy: None, uclamp_min: None, uclamp_max: None })
    } else {
        match sched_lines(path, all, (n - 1) as nat) {
            Err(e) => Err(e),
            Ok(f) => sched_line(path, f, all[n - 1]),
        }
    }
}

/// What the scheduler file of a task says, or why it makes no sense.
pub open spec fn parsed_sched(path: Seq<char>, contents: Seq<char>) -> Result<
    ParsedScheduler,
    PlatformErrorView,
> {
    let all = lines_of(contents);
    match sched_lines(path, all, all.len()) {
        Err(e) => Err(e),
        Ok(f) => match f.policy {
            None => Err(malformed(path, "missing `policy` field"@)),
            Some(policy) => match uclamp_error(f.uclamp_min, f.uclamp_max) {
                Some(e) => Err(e),
                None => Ok(
                    ParsedScheduler {
                        policy,
                        uclamp_min: f.uclamp_min,
                        uclamp_max: f.uclamp_max,
                    },
                ),
            },
        },
    }
}

/// A bad line decides however many follow.
proof fn sched_error_stands(path: Seq<char>, all: Seq<Seq<char>>, n: nat, k: nat)
    requires
        n <= k,
        sched_lines(path, all, n) is Err,
    ensures
        sched_lines(path, all, k) == sched_lines(path, all, n),
    decreases k,
{
    if n < k {
        sched_error_stands(path, all, n, (k - 1) as nat);
    }
}

/// What one line of the scheduler file adds.
fn take_sched_line(
    path: &str,
    policy: &mut Option<SchedulingClass>,
    uclamp_min: &mut Option<u16>,
    uclamp_max: &mut Option<u16>,
    line: &str,
) -> (r: PlatformResult<()>)
    ensures
        ({
            let before = SchedFields {
                policy: *old(policy),
                uclamp_min: *old(uclamp_min),
                uclamp_max: *old(uclamp_max),
            };
            match r {
                Ok(()) => sched_line(path@, before, line@) == Ok::<SchedFields, PlatformErrorView>(
                    SchedFields {
                        policy: *final(policy),
                        uclamp_min: *final(uclamp_min),
                        uclamp_max: *final(uclamp_max),
                    },
                ),
                Err(e) => sched_line(path@, before, line@) == Err::<SchedFields, PlatformErrorView>(
                    e@,
                ),
            }
        }),
{
    let (key, rest) = match split_once(line, ':') {
        None => {
            return Ok(());
        },
        Some(pair) => pair,
    };
    let w = split_words(rest.as_str(), Divider::Space);
    assert(texts(w@).len() == w@.len());
    let name = trim(key.as_str());
    if w.len() == 0 {
        let message = cat3("empty `", name.as_str(), "` field");
        return Err(PlatformError::invalid(path, message.as_str()));
    }
    let value = w[0].as_str();
    assert(value@ == texts(w@)[0]);
    if same(name.as_str(), "policy") {
        match parse_u32(value) {
            None => {
                let why = unsigned_error_text(value, u32::MAX as u64);
                let message = cat2("invalid scheduler policy: ", why);
                return Err(PlatformError::invalid(path, message.as_str()));
            },
            Some(raw) => match scheduling_class_from_linux(path, raw) {
                Err(e) => {
                    return Err(e);
                },
                Ok(c) => {
                    *policy = Some(c);
                },
            },
        }
    } else if same(name.as_str(), "uclamp.min") {
        match parse_uclamp_value(path, "uclamp.min", value) {
            Err(e) => {
                return Err(e);
            },
            Ok(v) => {
                *uclamp_min = Some(v);
            },
        }
    } else if same(name.as_str(), "uclamp.max") {
        match parse_uclamp_value(path, "uclamp.max", value) {
            Err(e) => {
                return Err(e);
            },
            Ok(v) => {
                *uclamp_max = Some(v);
            },
        }
    }
    Ok(())
}

/// What the scheduler file of a task says.
pub fn parse_scheduler_file(path: &str, contents: &str) -> (r: PlatformResult<ParsedScheduler>)
    ensures
        match r {
            Ok(p) => parsed_sched(path@, contents@) == Ok::<ParsedScheduler, PlatformErrorView>(p),
            Err(e) => parsed_sched(path@, contents@) == Err::<ParsedScheduler, PlatformErrorView>(
                e@,
            ),
        },
{
    let all = lines(contents);
    let ghost v = lines_of(contents@);
    assert(v.len() == all@.len());
    let mut policy: Option<SchedulingClass> = None;
    let mut uclamp_min: Option<u16> = None;
    let mut uclamp_max: Option<u16> = None;
    let mut i: usize = 0;
    while i < all.len()
        invariant
            i <= all@.len(),
            v == texts(all@),
            v == lines_of(contents@),
            sched_lines(path@, v, i as nat) == Ok::<SchedFields, PlatformErrorView>(
                SchedFields { policy, uclamp_min, uclamp_max },
            ),
        decreases all@.len() - i,
    {
        assert(v[i as int] == all@[i as int]@);
        if let Err(e) = take_sched_line(
            path,
            &mut policy,
            &mut uclamp_min,
            &mut uclamp_max,
            all[i].as_str(),
        ) {
            proof {
                sched_error_stands(path@, v, (i + 1) as nat, v.len());
            }
            return Err(e);
        }
        i = i + 1;
    }
    match policy {
        None => Err(PlatformError::invalid(path, "missing `policy` field")),
        Some(policy) => {
            if let Err(e) = validate_uclamp(uclamp_min, uclamp_max) {
                return Err(e);
            }
            Ok(ParsedScheduler { policy, uclamp_min, uclamp_max })
        },
    }
}

/// What the status record of a task says of its scheduling.
#[derive(Clone, Copy, Debug, PartialEq, Eq, Structural)]
pub struct ParsedSchedulerStat {
    pub policy: SchedulingClass,
    pub rt_priority: Option<u8>,
}

/// The position of the last closing bracket that a space follows, before `n`.
pub open spec fn last_bracket(s: Seq<char>, n: nat) -> Option<int>
    decreases n,
{
    if n == 0 {
        None
    } else if n < s.len() && s[n - 1] == ')' && s[n as int] == ' ' {
        Some(n - 1)
    } else {
        last_bracket(s, (n - 1) as nat)
    }
}

/// The fields behind the process name.
pub open spec fn stat_fields(contents: Seq<char>) -> Option<Seq<Seq<char>>> {
    match last_bracket(contents, contents.len()) {
        Some(k) => Some(words(contents.skip(k + 2), Divider::Space)),
        None => None,
    }
}

/// The name of a class in messages.
pub open spec fn class_text(c: SchedulingClass) -> Seq<char> {
    match c {
        SchedulingClass::Other => "Other"@,
        SchedulingClass::Batch => "Batch"@,
        SchedulingClass::Idle => "Idle"@,
        SchedulingClass::Fifo => "Fifo"@,
    }
}

/// The name of a class in messages.
pub fn class_name(c: SchedulingClass) -> (out: &'static str)
    ensures
        out@ == class_text(c),
{
    match c {
        SchedulingClass::Other => "Other",
        SchedulingClass::Batch => "Batch",
        SchedulingClass::Idle => "Idle",
        SchedulingClass::Fifo => "Fifo",
    }
}

/// What a raw priority means under a policy.
pub open spec fn stat_priority(path: Seq<char>, policy: SchedulingClass, raw: u32) -> Result<
    ParsedSchedulerStat,
    PlatformErrorView,
> {
    if policy == SchedulingClass::Fifo {
        if raw > u8::MAX {
            Err(
                malformed(
                    path,
                    "FIFO priority "@ + decimal_text(raw as nat) + " cannot be represented: "@
                        + OUT_OF_RANGE@,
                ),
            )
        } else {
            match priority_error(path, policy, Some(raw as u8)) {
                Some(e) => Err(e),
                None => Ok(ParsedSchedulerStat { policy, rt_priority: Some(raw as u8) }),
            }
        }
    } else if raw != 0 {
        Err(
            malformed(
                path,
                "non-real-time policy "@ + class_text(policy) + " reported rt_priority "@
                    + decimal_text(raw as nat),
            ),
        )
    } else {
        Ok(ParsedSchedulerStat { policy, rt_priority: None })
    }
}

/// What the status record of a task says of its scheduling, or why it makes no
/// sense.
pub open spec fn parsed_stat(path: Seq<char>, contents: Seq<char>) -> Result<
    ParsedSchedulerStat,
    PlatformErrorView,
> {
    match stat_fields(contents) {
        None => Err(malformed(path, "missing closing process name in stat record"@)),
        Some(f) => if f.len() <= 37 {
            Err(malformed(path, "stat record is missing rt_priority"@))
        } else {
            match parsed_unsigned(f[37], u32::MAX as nat) {
                None => Err(
                    malformed(
                        path,
                        "invalid rt_priority: "@ + unsigned_error(f[37], u32::MAX as nat),
                    ),
                ),
                Some(priority) => if f.len() <= 38 {
                    Err(malformed(path, "stat record is missing policy"@))
                } else {
                    match parsed_unsigned(f[38], u32::MAX as nat) {
                        None => Err(
                            malformed(
                                path,
                                "invalid policy: "@ + unsigned_error(f[38], u32::MAX as nat),
                            ),
                        ),
                        Some(policy) => match linux_class(path, policy as u32) {
                            Err(e) => Err(e),
                            Ok(class) => stat_priority(path, class, priority as u32),
                        },
                    }
                },
            }
        },
    }
}

/// The fields behind the process name. The name stands in brackets and may
/// itself hold blanks and brackets; nothing behind it holds a bracket.
fn split_stat(contents: &str) -> (r: Option<Vec<String>>)
    ensures
        match r {
            Some(f) => stat_fields(contents@) == Some(texts(f@)),
            None => stat_fields(contents@) is None,
        },
{
    let chars = chars_of(contents);
    let mut n: usize = chars.len();
    while n > 0 && !(n < chars.len() && chars[n - 1] == ')' && chars[n] == ' ')
        invariant
            n <= chars@.len(),
            chars@ == contents@,
            last_bracket(contents@, contents@.len()) == last_bracket(contents@, n as nat),
        decreases n,
    {
        n = n - 1;
    }
    if n == 0 {
        return None;
    }
    let rest = string_of(&chars, n + 1, chars.len());
    assert(rest@ =~= contents@.skip(n + 1));
    Some(split_words(rest.as_str(), Divider::Space))
}

/// What a raw priority means under a policy.
fn check_stat_priority(path: &str, policy: SchedulingClass, raw: u32) -> (r: PlatformResult<
    ParsedSchedulerStat,
>)
    ensures
        match r {
            Ok(p) => stat_priority(path@, policy, raw) == Ok::<
                ParsedSchedulerStat,
                PlatformErrorView,
            >(p),
            Err(e) => stat_priority(path@, policy, raw) == Err::<
                ParsedSchedulerStat,
                PlatformErrorView,
            >(e@),
        },
{
    let number = format_u64(raw as u64);
    if policy == SchedulingClass::Fifo {
        if raw > u8::MAX as u32 {
            let message = cat4(
                "FIFO priority ",
                number.as_str(),
                " cannot be represented: ",
                OUT_OF_RANGE,
            );
            return Err(PlatformError::invalid(path, message.as_str()));
        }
        let priority: u8 = raw as u8;
        if let Err(e) = validate_policy_priority(path, policy, Some(priority)) {
            return Err(e);
        }
        return Ok(ParsedSchedulerStat { policy, rt_priority: Some(priority) });
    }
    if raw != 0 {
        let message = cat4(
            "non-real-time policy ",
            class_name(policy),
            " reported rt_priority ",
            number.as_str(),
        );
        return Err(PlatformError::invalid(path, message.as_str()));
    }
    Ok(ParsedSchedulerStat { policy, rt_priority: None })
}

/// What the status record of a task says of its scheduling.
pub fn parse_scheduler_stat(path: &str, contents: &str) -> (r: PlatformResult<ParsedSchedulerStat>)
    ensures
        match r {
            Ok(p) => parsed_stat(path@, contents@) == Ok::<ParsedSchedulerStat, PlatformErrorView>(
                p,
            ),
            Err(e) => parsed_stat(path@, contents@) == Err::<
                ParsedSchedulerStat,
                PlatformErrorView,
            >(e@),
        },
{
    let f = match split_stat(contents) {
        None => {
            return Err(
                PlatformError::invalid(path, "missing closing process name in stat record"),
            );
        },
        Some(f) => f,
    };
    assert(texts(f@).len() == f@.len());
    if f.len() <= 37 {
        return Err(PlatformError::invalid(path, "stat record is missing rt_priority"));
    }
    assert(texts(f@)[37] == f@[37]@);
    let priority: u32 = match parse_u32(f[37].as_str()) {
        None => {
            let why = unsigned_error_text(f[37].as_str(), u32::MAX as u64);
            let message = cat2("invalid rt_priority: ", why);
            return Err(PlatformError::invalid(path, message.as_str()));
        },
        Some(p) => p,
    };
    if f.len() <= 38 {
        return Err(PlatformError::invalid(path, "stat record is missing policy"));
    }
    assert(texts(f@)[38] == f@[38]@);
    let raw: u32 = match parse_u32(f[38].as_str()) {
        None => {
            let why = unsigned_error_text(f[38].as_str(), u32::MAX as u64);
            let message = cat2("invalid policy: ", why);
            return Err(PlatformError::invalid(path, message.as_str()));
        },
        Some(p) => p,
    };
    match scheduling_class_from_linux(path, raw) {
        Err(e) => Err(e),
        Ok(class) => check_stat_priority(path, class, priority),
    }
}

/// The arguments that set a policy.
pub open spec fn policy_arguments(process: u32, policy: SchedulingClass, rt_priority: Option<u8>) -> Seq<
    Seq<char>,
> {
    let flag = match policy {
        SchedulingClass::Other => "--other"@,
        SchedulingClass::Batch => "--batch"@,
        SchedulingClass::Idle => "--idle"@,
        SchedulingClass::Fifo => "--fifo"@,
    };
    let priority = match rt_priority {
        Some(p) => p as nat,
        None => 0,
    };
    seq![flag, "--pid"@, decimal_text(priority), decimal_text(process as nat)]
}

/// The arguments that set a policy.
pub fn chrt_arguments(
    resource: &str,
    process: u32,
    policy: SchedulingClass,
    rt_priority: Option<u8>,
) -> (r: PlatformResult<Vec<String>>)
    ensures
        match r {
            Ok(v) => priority_error(resource@, policy, rt_priority) is None && texts(v@)
                == policy_arguments(process, policy, rt_priority),
            Err(e) => priority_error(resource@, policy, rt_priority) == Some(e@),
        },
{
    if let Err(e) = validate_policy_priority(resource, policy, rt_priority) {
        return Err(e);
    }
    let flag = match policy {
        SchedulingClass::Other => "--other",
        SchedulingClass::Batch => "--batch",
        SchedulingClass::Idle => "--idle",
        SchedulingClass::Fifo => "--fifo",
    };
    let priority: u64 = match rt_priority {
        Some(p) => p as u64,
        None => 0,
    };
    let mut out: Vec<String> = Vec::new();
    out.push(flag.to_owned());
    out.push("--pid".to_owned());
    out.push(format_u64(priority));
    out.push(format_u64(process as u64));
    assert(texts(out@) =~= policy_arguments(process, policy, rt_priority));
    Ok(out)
}

/// The arguments that set clamps, in the short forms that every release knows.
pub open spec fn clamp_arguments(process: u32, minimum: u16, maximum: u16) -> Seq<Seq<char>> {
    seq![
        "-m"@,
        decimal_text(minimum as nat),
        "-M"@,
        decimal_text(maximum as nat),
        "-p"@,
        decimal_text(process as nat),
    ]
}

/// The arguments that set clamps.
pub fn uclampset_arguments(process: u32, minimum: u16, maximum: u16) -> (out: Vec<String>)
    ensures
        texts(out@) == clamp_arguments(process, minimum, maximum),
{
    let mut out: Vec<String> = Vec::new();
    out.push("-m".to_owned());
    out.push(format_u64(minimum as u64));
    out.push("-M".to_owned());
    out.push(format_u64(maximum as u64));
    out.push("-p".to_owned());
    out.push(format_u64(process as u64));
    assert(texts(out@) =~= clamp_arguments(process, minimum, maximum));
    out
}

/// The CPU number that a text gives, or why it gives none.
pub open spec fn list_cpu(path: Seq<char>, value: Seq<char>) -> Result<u32, PlatformErrorView> {
    match parsed_unsigned(trimmed(value), u32::MAX as nat) {
        Some(n) => Ok(n as u32),
        None => Err(
            malformed(
                path,
                "invalid CPU ID: "@ + unsigned_error(trimmed(value), u32::MAX as nat),
            ),
        ),
    }
}

/// The CPU number that a text gives.
fn parse_cpu_id(path: &str, value: &str) -> (r: PlatformResult<u32>)
    ensures
        match r {
            Ok(n) => list_cpu(path@, value@) == Ok::<u32, PlatformErrorView>(n),
            Err(e) => list_cpu(path@, value@) == Err::<u32, PlatformErrorView>(e@),
        },
{
    let inner = trim(value);
    match parse_u32(inner.as_str()) {
        Some(n) => Ok(n),
        None => {
            let why = unsigned_error_text(inner.as_str(), u32::MAX as u64);
            let message = cat2("invalid CPU ID: ", why);
            Err(PlatformError::invalid(path, message.as_str()))
        },
    }
}

/// Why a CPU is out of reach of an affinity mask, if so.
pub open spec fn affinity_error(path: Seq<char>, cpu: u32) -> Option<PlatformErrorView> {
    if cpu >= AFFINITY_CPUS {
        Some(
            malformed(
                path,
                "CPU "@ + decimal_text(cpu as nat) + " exceeds the Linux affinity ABI limit "@
                    + decimal_text((AFFINITY_CPUS - 1) as nat),
            ),
        )
    } else {
        None
    }
}

/// Checks that a CPU is within reach of an affinity mask.
fn ensure_affinity_cpu(path: &str, cpu: u32) -> (r: PlatformResult<()>)
    ensures
        match r {
            Ok(()) => affinity_error(path@, cpu) is None,
            Err(e) => affinity_error(path@, cpu) == Some(e@),
        },
{
    if cpu as usize >= AFFINITY_CPUS {
        let number = format_u64(cpu as u64);
        let limit = format_u64((AFFINITY_CPUS - 1) as u64);
        let message = cat4(
            "CPU ",
            number.as_str(),
            " exceeds the Linux affinity ABI limit ",
            limit.as_str(),
        );
        return Err(PlatformError::invalid(path, message.as_str()));
    }
    Ok(())
}

/// The CPUs from `start` to `end`.
pub open spec fn cpu_range(start: u32, end: u32) -> Set<u32> {
    Set::new(|c: u32| start <= c <= end)
}

/// The CPUs that one element of a list gives, or why it gives none.
pub open spec fn list_item(path: Seq<char>, raw: Seq<char>) -> Result<Set<u32>, PlatformErrorView> {
    let item = trimmed(raw);
    if item.len() == 0 {
        Err(malformed(path, "empty CPU-list element"@))
    } else {
        match parted(item, '-') {
            Some((a, b)) => match list_cpu(path, a) {
                Err(e) => Err(e),
                Ok(start) => match list_cpu(path, b) {
                    Err(e) => Err(e),
                    Ok(end) => if start > end {
                        Err(
                            malformed(
                                path,
                                "reversed CPU range "@ + decimal_text(start as nat) + "-"@
                                    + decimal_text(end as nat),
                            ),
                        )
                    } else {
                        match affinity_error(path, end) {
                            Some(e) => Err(e),
                            None => Ok(cpu_range(start, end)),
                        }
                    },
                },
            },
            None => match list_cpu(path, item) {
                Err(e) => Err(e),
                Ok(cpu) => match affinity_error(path, cpu) {
                    Some(e) => Err(e),
                    None => Ok(cpu_range(cpu, cpu)),
                },
            },
        }
    }
}

/// The CPUs that the first `n` elements give; the first bad one decides.
pub open spec fn list_items(path: Seq<char>, items: Seq<Seq<char>>, n: nat) -> Result<
    Set<u32>,
    PlatformErrorView,
>
    decreases n,
{
    if n == 0 {
        Ok(Set::empty())
    } else {
        match list_items(path, items, (n - 1) as nat) {
            Err(e) => Err(e),
            Ok(before) => match list_item(path, items[n - 1]) {
                Err(e) => Err(e),
                Ok(set) => Ok(before.union(set)),
            },
        }
    }
}

/// The CPUs that a comma-separated list gives, or why it makes no sense.
pub open spec fn parsed_cpu_list(path: Seq<char>, contents: Seq<char>) -> Result<
    Set<u32>,
    PlatformErrorView,
> {
    let items = pieces(trimmed(contents), Divider::Char(','));
    list_items(path, items, items.len())
}

/// A bad element decides however many follow.
proof fn list_error_stands(path: Seq<char>, items: Seq<Seq<char>>, n: nat, k: nat)
    requires
        n <= k,
        list_items(path, items, n) is Err,
    ensures
        list_items(path, items, k) == list_items(path, items, n),
    decreases k,
{
    if n < k {
        list_error_stands(path, items, n, (k - 1) as nat);
    }
}

/// Adds the CPUs of one element.
fn take_item(path: &str, raw: &str, cpus: &mut CpuIds) -> (r: PlatformResult<()>)
    ensures
        match r {
            Ok(()) => list_item(path@, raw@) is Ok && final(cpus)@ == old(cpus)@.union(
                list_item(path@, raw@)->Ok_0,
            ),
            Err(e) => list_item(path@, raw@) == Err::<Set<u32>, PlatformErrorView>(e@),
        },
{
    let item = trim(raw);
    if item.as_str().is_empty() {
        return Err(PlatformError::invalid(path, "empty CPU-list element"));
    }
    let (start, end): (u32, u32) = match split_once(item.as_str(), '-') {
        Some((a, b)) => {
            let start: u32 = match parse_cpu_id(path, a.as_str()) {
                Err(e) => {
                    return Err(e);
                },
                Ok(n) => n,
            };
            let end: u32 = match parse_cpu_id(path, b.as_str()) {
                Err(e) => {
                    return Err(e);
                },
                Ok(n) => n,
            };
            if start > end {
                let x = format_u64(start as u64);
                let y = format_u64(end as u64);
                let message = cat4("reversed CPU range ", x.as_str(), "-", y.as_str());
                return Err(PlatformError::invalid(path, message.as_str()));
            }
            (start, end)
        },
        None => match parse_cpu_id(path, item.as_str()) {
            Err(e) => {
                return Err(e);
            },
            Ok(n) => (n, n),
        },
    };
    if let Err(e) = ensure_affinity_cpu(path, end) {
        return Err(e);
    }
    let mut cpu: u32 = start;
    let ghost before = cpus@;
    assert(cpus@ =~= before.union(Set::new(|c: u32| start <= c < cpu)));
    while cpu <= end
        invariant
            start <= cpu <= end + 1,
            end < AFFINITY_CPUS,
            cpus@ == before.union(Set::new(|c: u32| start <= c < cpu)),
        decreases end + 1 - cpu,
    {
        cpus.insert(cpu);
        cpu = cpu + 1;
        assert(cpus@ =~= before.union(Set::new(|c: u32| start <= c < cpu)));
    }
    assert(cpus@ =~= before.union(cpu_range(start, end)));
    Ok(())
}

/// The CPUs that a comma-separated list gives.
pub fn parse_cpu_list(path: &str, contents: &str) -> (r: PlatformResult<CpuIds>)
    ensures
        match r {
            Ok(s) => parsed_cpu_list(path@, contents@) == Ok::<Set<u32>, PlatformErrorView>(s@),
            Err(e) => parsed_cpu_list(path@, contents@) == Err::<Set<u32>, PlatformErrorView>(e@),
        },
{
    let inner = trim(contents);
    let items = split(inner.as_str(), Divider::Char(','));
    let ghost v = pieces(trimmed(contents@), Divider::Char(','));
    assert(v.len() == items@.len());
    let mut cpus = CpuIds::new();
    let mut i: usize = 0;
    while i < items.len()
        invariant
            i <= items@.len(),
            v == texts(items@),
            v == pieces(trimmed(contents@), Divider::Char(',')),
            list_items(path@, v, i as nat) == Ok::<Set<u32>, PlatformErrorView>(cpus@),
        decreases items@.len() - i,
    {
        assert(v[i as int] == items@[i as int]@);
        if let Err(e) = take_item(path, items[i].as_str(), &mut cpus) {
            proof {
                list_error_stands(path@, v, (i + 1) as nat, v.len());
            }
            return Err(e);
        }
        i = i + 1;
    }
    Ok(cpus)
}

/// Every CPU of a list that is taken fits an affinity mask.
pub proof fn listed_cpus_fit_the_mask(path: Seq<char>, contents: Seq<char>)
    requires
        parsed_cpu_list(path, contents) is Ok,
    ensures
        fits_mask(parsed_cpu_list(path, contents)->Ok_0),
{
    let items = pieces(trimmed(contents), Divider::Char(','));
    items_fit(path, items, items.len());
}

proof fn items_fit(path: Seq<char>, items: Seq<Seq<char>>, n: nat)
    requires
        list_items(path, items, n) is Ok,
    ensures
        fits_mask(list_items(path, items, n)->Ok_0),
    decreases n,
{
    if n > 0 {
        items_fit(path, items, (n - 1) as nat);
    }
}

/// What became of a failed call on a process: a process that is gone is told
/// apart from other failures.
pub open spec fn process_failure(
    operation: Seq<char>,
    path: Seq<char>,
    source: crate::platform::IoView,
) -> PlatformErrorView {
    if source.kind == IoKind::NotFound {
        PlatformErrorView::Disappeared(path)
    } else {
        PlatformErrorView::Io { operation, path, source }
    }
}

/// What became of a failed call on a process.
pub fn map_process_io(operation: &'static str, path: &str, source: IoFailure) -> (e: PlatformError)
    ensures
        e@ == process_failure(operation@, path@, source@),
{
    if source.kind == IoKind::NotFound {
        PlatformError::Disappeared(path.to_owned())
    } else {
        PlatformError::io(operation, path, source)
    }
}

/// The facts about a system tool that decide whether it is run.
#[derive(Clone, Copy, Debug, PartialEq, Eq, Structural)]
pub struct ToolFacts {
    pub is_file: bool,
    pub owner: u32,
    pub mode: u32,
    pub is_absolute: bool,
}

/// Whether a tool is run: only a file of the superuser that nobody else may
/// write.
pub open spec fn trusted(facts: ToolFacts) -> bool {
    facts.is_file && facts.owner == 0 && facts.mode & 0o022 == 0 && facts.is_absolute
}

/// Whether a tool is run.
pub fn trusted_system_tool(facts: ToolFacts) -> (r: bool)
    ensures
        r == trusted(facts),
{
    facts.is_file && facts.owner == 0 && facts.mode & 0o022 == 0 && facts.is_absolute
}

/// The calls that a scheduling transaction makes.
pub trait SchedulingApi {
    /// Reads the scheduling of a task.
    fn read(&self, process: u32) -> PlatformResult<ProcessSchedulingState>;

    /// Sets the CPUs of a task.
    fn set_affinity(&self, process: u32, affinity: &CpuIds) -> PlatformResult<()>;

    /// Sets the nice value of a task.
    fn set_nice(&self, process: u32, nice: i8) -> PlatformResult<()>;

    /// Sets the policy of a task.
    fn set_policy(&self, process: u32, policy: SchedulingClass, rt_priority: Option<u8>) -> PlatformResult<
        (),
    >;

    /// Sets the clamps of a task.
    fn set_uclamp(&self, process: u32, minimum: u16, maximum: u16) -> PlatformResult<()>;
}

/// One change of scheduling.
#[derive(Debug)]
pub enum Step {
    Affinity(CpuIds),
    Nice(i8),
    Policy(SchedulingClass, Option<u8>),
    Uclamp(u16, u16),
}

/// The view of [`Step`].
pub enum StepView {
    Affinity(Set<u32>),
    Nice(i8),
    Policy(SchedulingClass, Option<u8>),
    Uclamp(u16, u16),
}

impl View for Step {
    type V = StepView;

    open spec fn view(&self) -> StepView {
        match *self {
            Step::Affinity(s) => StepView::Affinity(s@),
            Step::Nice(n) => StepView::Nice(n),
            Step::Policy(p, r) => StepView::Policy(p, r),
            Step::Uclamp(a, b) => StepView::Uclamp(a, b),
        }
    }
}

/// What a step does to the scheduling of a task.
pub open spec fn stepped(s: SchedulingView, step: StepView) -> SchedulingView {
    match step {
        StepView::Affinity(affinity) => SchedulingView { affinity, ..s },
        StepView::Nice(nice) => SchedulingView { nice, ..s },
        StepView::Policy(policy, rt_priority) => SchedulingView { policy, rt_priority, ..s },
        StepView::Uclamp(a, b) => SchedulingView {
            uclamp_min: Some(a),
            uclamp_max: Some(b),
            ..s
        },
    }
}

/// What the first `n` steps do.
pub open spec fn run_steps(s: SchedulingView, steps: Seq<StepView>, n: nat) -> SchedulingView
    decreases n,
{
    if n == 0 {
        s
    } else {
        stepped(run_steps(s, steps, (n - 1) as nat), steps[n - 1])
    }
}

/// The lower clamp that is asked for.
pub open spec fn wanted_min(original: SchedulingView, desired: SchedulingView) -> Option<u16> {
    if desired.uclamp_min is Some {
        desired.uclamp_min
    } else {
        original.uclamp_min
    }
}

/// The upper clamp that is asked for.
pub open spec fn wanted_max(original: SchedulingView, desired: SchedulingView) -> Option<u16> {
    if desired.uclamp_max is Some {
        desired.uclamp_max
    } else {
        original.uclamp_max
    }
}

/// Whether the clamps have to be set.
pub open spec fn clamps_differ(original: SchedulingView, desired: SchedulingView) -> bool {
    (desired.uclamp_min is Some || desired.uclamp_max is Some) && (wanted_min(original, desired)
        != original.uclamp_min || wanted_max(original, desired) != original.uclamp_max)
}

/// The steps from one scheduling to another: only what differs, in a fixed
/// order.
pub open spec fn forward_steps(original: SchedulingView, desired: SchedulingView) -> Seq<StepView> {
    let none = Seq::<StepView>::empty();
    let a = if desired.affinity != original.affinity {
        none.push(StepView::Affinity(desired.affinity))
    } else {
        none
    };
    let b = if desired.nice != original.nice {
        a.push(StepView::Nice(desired.nice))
    } else {
        a
    };
    let c = if desired.policy != original.policy || desired.rt_priority != original.rt_priority {
        b.push(StepView::Policy(desired.policy, desired.rt_priority))
    } else {
        b
    };
    if clamps_differ(original, desired) {
        c.push(
            StepView::Uclamp(wanted_min(original, desired)->0, wanted_max(original, desired)->0),
        )
    } else {
        c
    }
}

/// The step that takes one back.
pub open spec fn undo_step(original: SchedulingView, step: StepView) -> StepView {
    match step {
        StepView::Affinity(_) => StepView::Affinity(original.affinity),
        StepView::Nice(_) => StepView::Nice(original.nice),
        StepView::Policy(_, _) => StepView::Policy(original.policy, original.rt_priority),
        StepView::Uclamp(_, _) => StepView::Uclamp(
            original.uclamp_min->0,
            original.uclamp_max->0,
        ),
    }
}

/// The steps that take the first `n` ones back, the last one first.
pub open spec fn undo_steps(original: SchedulingView, steps: Seq<StepView>, n: nat) -> Seq<StepView> {
    Seq::new(n, |i: int| undo_step(original, steps[n - 1 - i]))
}

/// The smallest CPU of a set that does not fit an affinity mask.
pub open spec fn smallest_over(cpus: Set<u32>) -> u32 {
    choose|c: u32|
        #![trigger cpus.contains(c)]
        cpus.contains(c) && c >= AFFINITY_CPUS && forall|d: u32| #[trigger]
            cpus.contains(d) && d >= AFFINITY_CPUS ==> c <= d
}

/// The smallest CPU of a set that does not fit an affinity mask, if any.
fn first_over(cpus: &CpuIds) -> (r: Option<u32>)
    ensures
        match r {
            Some(c) => !fits_mask(cpus@) && c == smallest_over(cpus@),
            None => fits_mask(cpus@),
        },
{
    let n: usize = cpus.len();
    let mut i: usize = 0;
    while i < n
        invariant
            i <= n,
            n == cpus.ids().len(),
            ids_ascending(cpus.ids()),
            cpus.ids().to_set() == cpus@,
            forall|j: int| 0 <= j < i ==> cpus.ids()[j] < AFFINITY_CPUS,
        decreases n - i,
    {
        let c: u32 = cpus.at(i);
        if c as usize >= AFFINITY_CPUS {
            proof {
                assert forall|d: u32| #[trigger] cpus@.contains(d) && d >= AFFINITY_CPUS implies c <= d by {
                    assert(cpus.ids().contains(d));
                    let j = choose|j: int| 0 <= j < cpus.ids().len() && cpus.ids()[j] == d;
                    assert(j >= i);
                }
                let s = smallest_over(cpus@);
                assert(cpus@.contains(c));
                assert(cpus@.contains(s) && s >= AFFINITY_CPUS && s <= c);
            }
            return Some(c);
        }
        i = i + 1;
    }
    proof {
        assert forall|d: u32| #[trigger] cpus@.contains(d) implies d < AFFINITY_CPUS by {
            assert(cpus.ids().contains(d));
            let j = choose|j: int| 0 <= j < cpus.ids().len() && cpus.ids()[j] == d;
            assert(cpus.ids()[j] < AFFINITY_CPUS);
        }
    }
    None
}

/// Why a scheduling is refused, if so. Everything is checked before anything is
/// changed.
pub open spec fn desired_error(
    online_path: Seq<char>,
    online: Set<u32>,
    original: SchedulingView,
    desired: SchedulingView,
) -> Option<PlatformErrorView> {
    if desired.affinity == Set::<u32>::empty() {
        Some(malformed(online_path, "CPU affinity must not be empty"@))
    } else if !desired.affinity.subset_of(online) {
        Some(
            malformed(
                online_path,
                "requested affinity contains an offline or nonexistent CPU"@,
            ),
        )
    } else if !fits_mask(desired.affinity) {
        Some(
            malformed(
                online_path,
                "CPU "@ + decimal_text(smallest_over(desired.affinity) as nat)
                    + " exceeds the affinity ABI limit "@ + decimal_text(
                    (AFFINITY_CPUS - 1) as nat,
                ),
            ),
        )
    } else if !(-20 <= desired.nice && desired.nice <= 19) {
        Some(
            malformed(
                sched_path("/proc"@, 0),
                "nice value "@ + signed_text(desired.nice as int) + " is outside -20..=19"@,
            ),
        )
    } else if priority_error("/proc/<tid>/sched"@, desired.policy, desired.rt_priority) is Some {
        priority_error("/proc/<tid>/sched"@, desired.policy, desired.rt_priority)
    } else if uclamp_error(desired.uclamp_min, desired.uclamp_max) is Some {
        uclamp_error(desired.uclamp_min, desired.uclamp_max)
    } else if (desired.uclamp_min is Some || desired.uclamp_max is Some) && (original.uclamp_min is None
        || original.uclamp_max is None) {
        Some(
            PlatformErrorView::Unsupported(
                "kernel does not expose readable per-task uclamp state"@,
            ),
        )
    } else {
        None
    }
}

/// Checks a scheduling before anything is changed.
pub fn validate_desired(
    online_path: &str,
    online: &CpuIds,
    original: &ProcessSchedulingState,
    desired: &ProcessSchedulingState,
) -> (r: PlatformResult<()>)
    ensures
        match r {
            Ok(()) => desired_error(online_path@, online@, original@, desired@) is None,
            Err(e) => desired_error(online_path@, online@, original@, desired@) == Some(e@),
        },
{
    if desired.affinity.is_empty() {
        return Err(PlatformError::invalid(online_path, "CPU affinity must not be empty"));
    }
    if !desired.affinity.is_subset(online) {
        return Err(
            PlatformError::invalid(
                online_path,
                "requested affinity contains an offline or nonexistent CPU",
            ),
        );
    }
    if let Some(cpu) = first_over(&desired.affinity) {
        let number = format_u64(cpu as u64);
        let limit = format_u64((AFFINITY_CPUS - 1) as u64);
        let message = cat4(
            "CPU ",
            number.as_str(),
            " exceeds the affinity ABI limit ",
            limit.as_str(),
        );
        return Err(PlatformError::invalid(online_path, message.as_str()));
    }
    if desired.nice < -20 || desired.nice > 19 {
        let path = scheduling_path("/proc", 0);
        let number = format_i64(desired.nice as i64);
        let message = cat3("nice value ", number.as_str(), " is outside -20..=19");
        return Err(PlatformError::invalid(path.as_str(), message.as_str()));
    }
    if let Err(e) = validate_policy_priority(
        "/proc/<tid>/sched",
        desired.policy,
        desired.rt_priority,
    ) {
        return Err(e);
    }
    if let Err(e) = validate_uclamp(desired.uclamp_min, desired.uclamp_max) {
        return Err(e);
    }
    if (desired.uclamp_min.is_some() || desired.uclamp_max.is_some())
        && (original.uclamp_min.is_none() || original.uclamp_max.is_none()) {
        return Err(
            PlatformError::Unsupported("kernel does not expose readable per-task uclamp state"),
        );
    }
    Ok(())
}

/// The steps from one scheduling to another.
pub fn plan_steps(original: &ProcessSchedulingState, desired: &ProcessSchedulingState) -> (out: Vec<
    Step,
>)
    requires
        clamps_differ(original@, desired@) ==> original@.uclamp_min is Some
            && original@.uclamp_max is Some,
    ensures
        seq_view(out@) == forward_steps(original@, desired@),
{
    let mut out: Vec<Step> = Vec::new();
    if !desired.affinity.same_as(&original.affinity) {
        out.push(Step::Affinity(desired.affinity.duplicate()));
    }
    if desired.nice != original.nice {
        out.push(Step::Nice(desired.nice));
    }
    if desired.policy != original.policy || desired.rt_priority != original.rt_priority {
        out.push(Step::Policy(desired.policy, desired.rt_priority));
    }
    if desired.uclamp_min.is_some() || desired.uclamp_max.is_some() {
        let minimum = if desired.uclamp_min.is_some() {
            desired.uclamp_min
        } else {
            original.uclamp_min
        };
        let maximum = if desired.uclamp_max.is_some() {
            desired.uclamp_max
        } else {
            original.uclamp_max
        };
        if minimum != original.uclamp_min || maximum != original.uclamp_max {
            if let Some(a) = minimum {
                if let Some(b) = maximum {
                    out.push(Step::Uclamp(a, b));
                }
            }
        }
    }
    assert(seq_view(out@) =~= forward_steps(original@, desired@));
    out
}

/// The step that takes one back.
fn inverse(original: &ProcessSchedulingState, step: &Step) -> (out: Step)
    requires
        step@ is Uclamp ==> original@.uclamp_min is Some && original@.uclamp_max is Some,
    ensures
        out@ == undo_step(original@, step@),
{
    match step {
        Step::Affinity(_) => Step::Affinity(original.affinity.duplicate()),
        Step::Nice(_) => Step::Nice(original.nice),
        Step::Policy(_, _) => Step::Policy(original.policy, original.rt_priority),
        Step::Uclamp(_, _) => Step::Uclamp(
            match original.uclamp_min {
                Some(a) => a,
                None => 0,
            },
            match original.uclamp_max {
                Some(b) => b,
                None => 0,
            },
        ),
    }
}

/// The steps that take the first `n` ones back.
pub fn plan_undo(original: &ProcessSchedulingState, steps: &Vec<Step>, n: usize) -> (out: Vec<Step>)
    requires
        n <= steps@.len(),
        forall|i: int|
            0 <= i < steps@.len() && (#[trigger] steps@[i])@ is Uclamp
                ==> original@.uclamp_min is Some && original@.uclamp_max is Some,
    ensures
        seq_view(out@) == undo_steps(original@, seq_view(steps@), n as nat),
{
    let mut out: Vec<Step> = Vec::new();
    let mut i: usize = 0;
    while i < n
        invariant
            i <= n <= steps@.len(),
            out@.len() == i,
            forall|k: int|
                0 <= k < steps@.len() && (#[trigger] steps@[k])@ is Uclamp
                    ==> original@.uclamp_min is Some && original@.uclamp_max is Some,
            forall|k: int|
                0 <= k < i ==> (#[trigger] out@[k])@ == undo_step(
                    original@,
                    steps@[n - 1 - k]@,
                ),
        decreases n - i,
    {
        out.push(inverse(original, &steps[n - 1 - i]));
        i = i + 1;
    }
    assert(seq_view(out@) =~= undo_steps(original@, seq_view(steps@), n as nat));
    out
}

/// Whether a scheduling is the one that was asked for. Clamps that were not
/// asked for do not matter.
pub open spec fn meets(actual: SchedulingView, desired: SchedulingView) -> bool {
    &&& actual.affinity == desired.affinity
    &&& actual.nice == desired.nice
    &&& actual.policy == desired.policy
    &&& actual.rt_priority == desired.rt_priority
    &&& desired.uclamp_min is Some ==> actual.uclamp_min == desired.uclamp_min
    &&& desired.uclamp_max is Some ==> actual.uclamp_max == desired.uclamp_max
}

/// Whether a scheduling is the one that was asked for.
pub fn matches_desired(actual: &ProcessSchedulingState, desired: &ProcessSchedulingState) -> (r: bool)
    ensures
        r == meets(actual@, desired@),
{
    actual.affinity.same_as(&desired.affinity) && actual.nice == desired.nice && actual.policy
        == desired.policy && actual.rt_priority == desired.rt_priority && (
    desired.uclamp_min.is_none() || actual.uclamp_min == desired.uclamp_min) && (
    desired.uclamp_max.is_none() || actual.uclamp_max == desired.uclamp_max)
}

/// The name of a step in messages.
pub open spec fn step_text(step: StepView) -> Seq<char> {
    match step {
        StepView::Affinity(_) => "affinity"@,
        StepView::Nice(_) => "nice"@,
        StepView::Policy(_, _) => "policy"@,
        StepView::Uclamp(_, _) => "uclamp"@,
    }
}

/// The name of a step in messages.
pub(crate) fn step_name(step: &Step) -> (out: &'static str)
    ensures
        out@ == step_text(step@),
{
    match step {
        Step::Affinity(_) => "affinity",
        Step::Nice(_) => "nice",
        Step::Policy(_, _) => "policy",
        Step::Uclamp(_, _) => "uclamp",
    }
}

/// The error of a transaction: that of the failed step, and where undoing
/// failed too, both.
pub open spec fn transaction_error(
    process: u32,
    failure: PlatformErrorView,
    undo_failures: Seq<char>,
) -> PlatformErrorView {
    if undo_failures.len() == 0 {
        failure
    } else {
        malformed(
            sched_path("/proc"@, process),
            "scheduling transaction failed ("@ + failure.text()
                + "); rollback also failed: "@ + undo_failures,
        )
    }
}

/// The error of a transaction.
pub fn fail_transaction(process: u32, failure: PlatformError, undo_failures: &str) -> (e: PlatformError)
    ensures
        e@ == transaction_error(process, failure@, undo_failures@),
{
    if undo_failures.is_empty() {
        return failure;
    }
    let path = scheduling_path("/proc", process);
    let why = failure.message();
    let message = cat4(
        "scheduling transaction failed (",
        why.as_str(),
        "); rollback also failed: ",
        undo_failures,
    );
    PlatformError::invalid(path.as_str(), message.as_str())
}

/// Whether the call that makes a step can give a reply.
pub open spec fn replies<A: SchedulingApi>(
    api: &A,
    process: u32,
    step: StepView,
    reply: PlatformResult<()>,
) -> bool {
    match step {
        StepView::Affinity(s) => exists|affinity: &CpuIds|
            {
                &&& #[trigger] call_ensures(A::set_affinity, (api, process, affinity), reply)
                &&& affinity@ == s
            },
        StepView::Nice(n) => call_ensures(A::set_nice, (api, process, n), reply),
        StepView::Policy(p, r) => call_ensures(A::set_policy, (api, process, p, r), reply),
        StepView::Uclamp(a, b) => call_ensures(A::set_uclamp, (api, process, a, b), reply),
    }
}

/// Makes one step.
fn perform<A: SchedulingApi>(api: &A, process: u32, step: &Step) -> (r: PlatformResult<()>)
    ensures
        replies(api, process, step@, r),
{
    match step {
        Step::Affinity(s) => api.set_affinity(process, s),
        Step::Nice(n) => api.set_nice(process, *n),
        Step::Policy(p, r) => api.set_policy(process, *p, *r),
        Step::Uclamp(a, b) => api.set_uclamp(process, *a, *b),
    }
}

/// Whether an action can be answered by a reply: by that of the one call that
/// the action names.
pub open spec fn answers<A: SchedulingApi>(
    api: &A,
    process: u32,
    action: SchedulingActionView,
    reply: ReplyView,
) -> bool {
    match reply {
        ReplyView::State(s) => action is Read && exists|r: PlatformResult<ProcessSchedulingState>|
            {
                &&& #[trigger] call_ensures(A::read, (api, process), r)
                &&& s == state_view(r)
            },
        ReplyView::Done(e) => action is Make && exists|r: PlatformResult<()>|
            {
                &&& #[trigger] replies(api, process, action->Make_0, r)
                &&& e == reply_error(r)
            },
    }
}

/// Whether a change can be answered by these replies, each to the action that
/// was due after those before it.
#[verifier::opaque]
pub open spec fn drives<A: SchedulingApi>(api: &A, start: Turn, given: Seq<ReplyView>) -> bool {
    forall|i: int|
        0 <= i < given.len() ==> answers(
            api,
            start.state.process,
            run(start, given, i as nat).action,
            #[trigger] given[i],
        )
}

/// One more reply to the action that is due.
proof fn drives_on<A: SchedulingApi>(
    api: &A,
    start: Turn,
    given: Seq<ReplyView>,
    reply: ReplyView,
)
    requires
        drives(api, start, given),
        answers(api, start.state.process, run(start, given, given.len()).action, reply),
    ensures
        drives(api, start, given.push(reply)),
        run(start, given.push(reply), given.len() + 1) == answered(
            run(start, given, given.len()),
            reply,
        ),
{
    reveal(drives);
    let next = given.push(reply);
    run_prefix(start, given, next, given.len());
    run_unfolds(start, next, given.len());
    assert forall|i: int| 0 <= i < next.len() implies answers(
        api,
        start.state.process,
        run(start, next, i as nat).action,
        #[trigger] next[i],
    ) by {
        if i < given.len() {
            run_prefix(start, given, next, i as nat);
            assert(next[i] == given[i]);
        }
    }
}

/// Nothing was asked yet.
proof fn drives_nothing<A: SchedulingApi>(api: &A, start: Turn)
    ensures
        drives(api, start, Seq::empty()),
        run(start, Seq::empty(), 0) == start,
{
    reveal(drives);
    run_unfolds(start, Seq::empty(), 0);
}

/// Two rows of replies, one after the other.
proof fn drives_joined<A: SchedulingApi>(
    api: &A,
    start: Turn,
    a: Seq<ReplyView>,
    b: Seq<ReplyView>,
)
    requires
        drives(api, start, a),
        drives(api, run(start, a, a.len()), b),
        run(start, a, a.len()).state.process == start.state.process,
    ensures
        drives(api, start, a + b),
        run(start, a + b, (a + b).len()) == run(run(start, a, a.len()), b, b.len()),
{
    reveal(drives);
    let turn = run(start, a, a.len());
    run_joined(start, a, b, b.len());
    let whole = a + b;
    assert forall|i: int| 0 <= i < whole.len() implies answers(
        api,
        start.state.process,
        run(start, whole, i as nat).action,
        #[trigger] whole[i],
    ) by {
        if i < a.len() {
            run_prefix(start, a, whole, i as nat);
            assert(whole[i] == a[i]);
        } else {
            let j = i - a.len();
            run_joined(start, a, b, j as nat);
            assert(whole[i] == b[j]);
            assert(answers(api, turn.state.process, run(turn, b, j as nat).action, b[j]));
        }
    }
}

/// Takes steps back, each of them whatever became of the others, and gives the
/// error of the change. The first of them is given.
fn rollback<A: SchedulingApi>(api: &A, t: &mut SchedulingTransaction, first: Step) -> (e:
    PlatformError)
    requires
        old(t).well_formed(),
        old(t)@.phase is Undo,
        first@ == old(t)@.phase->Undo_undo[old(t)@.phase->Undo_at as int],
    ensures
        ({
            let start = Turn { state: old(t)@, action: SchedulingActionView::Make(first@) };
            exists|given: Seq<ReplyView>|
                {
                    &&& #[trigger] drives(api, start, given)
                    &&& run(start, given, given.len()).action == SchedulingActionView::Finish(
                        Err(e@),
                    )
                }
        }),
{
    let ghost start = Turn { state: t@, action: SchedulingActionView::Make(first@) };
    let ghost mut given: Seq<ReplyView> = Seq::empty();
    let mut step = first;
    proof {
        drives_nothing(api, start);
    }
    loop
        invariant
            start == (Turn { state: old(t)@, action: SchedulingActionView::Make(first@) }),
            t.well_formed(),
            t@.phase is Undo,
            t@.process == start.state.process,
            drives(api, start, given),
            run(start, given, given.len()) == (Turn {
                state: t@,
                action: SchedulingActionView::Make(step@),
            }),
        decreases calls_left(t@),
    {
        let process: u32 = t.process;
        let reply = perform(api, process, &step);
        let ghost said = ReplyView::Done(reply_error(reply));
        proof {
            assert(answers(api, process, SchedulingActionView::Make(step@), said));
            drives_on(api, start, given, said);
            given = given.push(said);
        }
        match t.undone(reply) {
            SchedulingAction::Make(next) => {
                step = next;
            },
            SchedulingAction::Finish(Err(e)) => {
                return e;
            },
            _ => {
                return PlatformError::Unsupported("scheduling transaction");
            },
        }
    }
}

/// Reads the scheduling of a task.
pub fn read_scheduling<A: SchedulingApi>(api: &A, process: u32) -> (r: PlatformResult<
    ProcessSchedulingState,
>)
    ensures
        match pid_error(process) {
            Some(e) => r is Err && r->Err_0@ == e,
            None => call_ensures(A::read, (api, process), r),
        },
{
    match raw_process_id(process) {
        Err(e) => Err(e),
        Ok(_) => api.read(process),
    }
}

/// Changes the scheduling of a task: makes the calls of a
/// [`SchedulingTransaction`] in their order, and gives its outcome. What comes
/// back was read from the kernel and is what was asked for; on any failure the
/// steps that were made are taken back.
pub fn write_scheduling<A: SchedulingApi>(
    api: &A,
    online_path: &str,
    online: &PlatformResult<CpuIds>,
    process: u32,
    desired: &ProcessSchedulingState,
) -> (r: PlatformResult<ProcessSchedulingState>)
    ensures
        match pid_error(process) {
            Some(e) => r is Err && r->Err_0@ == e,
            None => {
                let start = started(process, desired@, online_path@, online_view(*online));
                exists|given: Seq<ReplyView>|
                    {
                        &&& #[trigger] drives(api, start, given)
                        &&& run(start, given, given.len()).action == SchedulingActionView::Finish(
                            state_view(r),
                        )
                    }
            },
        },
        match r {
            Ok(actual) => {
                &&& meets(actual@, desired@)
                &&& online is Ok
                &&& desired@.affinity.subset_of(online->Ok_0@)
                &&& desired@.affinity != Set::<u32>::empty()
                &&& -20 <= desired@.nice <= 19
                &&& uclamp_error(desired@.uclamp_min, desired@.uclamp_max) is None
            },
            Err(_) => true,
        },
{
    let mut t = match SchedulingTransaction::begin(process, desired, online_path, online) {
        Err(e) => {
            return Err(e);
        },
        Ok(t) => t,
    };
    let ghost start = started(process, desired@, online_path@, online_view(*online));
    let ghost mut given: Seq<ReplyView> = Seq::empty();
    let first = api.read(process);
    proof {
        let said = ReplyView::State(state_view(first));
        assert(call_ensures(A::read, (api, process), first));
        drives_nothing(api, start);
        assert(answers(api, process, start.action, said));
        drives_on(api, start, given, said);
        given = given.push(said);
    }
    let mut action = t.original_read(first);
    loop
        invariant
            start == started(process, desired@, online_path@, online_view(*online)),
            pid_error(process) is None,
            t.well_formed(),
            drives(api, start, given),
            run(start, given, given.len()) == (Turn { state: t@, action: action@ }),
            !(t@.phase is ReadOriginal),
        decreases calls_left(t@),
    {
        proof {
            success_is_what_was_asked_for(start, given, given.len());
        }
        match action {
            SchedulingAction::Finish(r) => {
                return r;
            },
            SchedulingAction::Read => {
                let reply = api.read(process);
                proof {
                    let said = ReplyView::State(state_view(reply));
                    assert(call_ensures(A::read, (api, process), reply));
                    assert(answers(api, process, SchedulingActionView::Read, said));
                    drives_on(api, start, given, said);
                    given = given.push(said);
                }
                action = t.read_back(reply);
            },
            SchedulingAction::Make(step) => {
                if t.is_undoing() {
                    let ghost turn = Turn {
                        state: t@,
                        action: SchedulingActionView::Make(step@),
                    };
                    let e = rollback(api, &mut t, step);
                    proof {
                        let more = choose|more: Seq<ReplyView>|
                            {
                                &&& #[trigger] drives(api, turn, more)
                                &&& run(turn, more, more.len()).action
                                    == SchedulingActionView::Finish(Err(e@))
                            };
                        drives_joined(api, start, given, more);
                    }
                    return Err(e);
                }
                let reply = perform(api, process, &step);
                proof {
                    let said = ReplyView::Done(reply_error(reply));
                    assert(answers(api, process, SchedulingActionView::Make(step@), said));
                    drives_on(api, start, given, said);
                    given = given.push(said);
                }
                action = t.stepped(reply);
            },
        }
    }
}

/// A copy of an error.
pub fn copy_error(e: &PlatformError) -> (out: PlatformError)
    ensures
        out@ == e@,
{
    match e {
        PlatformError::Io { operation, path, source } => PlatformError::Io {
            operation: *operation,
            path: path.clone(),
            source: IoFailure {
                kind: source.kind,
                code: source.code,
                message: source.message.clone(),
            },
        },
        PlatformError::InvalidData { path, message } => PlatformError::InvalidData {
            path: path.clone(),
            message: message.clone(),
        },
        PlatformError::AccessDenied { path, reason } => PlatformError::AccessDenied {
            path: path.clone(),
            reason: reason.clone(),
        },
        PlatformError::Unsupported(what) => PlatformError::Unsupported(*what),
        PlatformError::Disappeared(what) => PlatformError::Disappeared(what.clone()),
    }
}

/// A step that sets clamps is only made where they differ.
pub(crate) proof fn clamps_only_where_they_differ(original: SchedulingView, desired: SchedulingView, i: int)
    requires
        0 <= i < forward_steps(original, desired).len(),
        forward_steps(original, desired)[i] is Uclamp,
    ensures
        clamps_differ(original, desired),
{
    if !clamps_differ(original, desired) {
        let none = Seq::<StepView>::empty();
        let a = if desired.affinity != original.affinity {
            none.push(StepView::Affinity(desired.affinity))
        } else {
            none
        };
        let b = if desired.nice != original.nice {
            a.push(StepView::Nice(desired.nice))
        } else {
            a
        };
        let c = forward_steps(original, desired);
        assert(forall|k: int| 0 <= k < a.len() ==> !(#[trigger] a[k] is Uclamp));
        assert(forall|k: int| 0 <= k < b.len() ==> !(#[trigger] b[k] is Uclamp));
        assert(forall|k: int| 0 <= k < c.len() ==> !(#[trigger] c[k] is Uclamp));
    }
}

/// All steps together lead to the scheduling that was asked for.
pub proof fn steps_reach_the_goal(original: SchedulingView, desired: SchedulingView)
    requires
        clamps_differ(original, desired) ==> original.uclamp_min is Some
            && original.uclamp_max is Some,
    ensures
        ({
            let steps = forward_steps(original, desired);
            meets(run_steps(original, steps, steps.len()), desired)
        }),
{
    reveal_with_fuel(run_steps, 6);
}

/// A failed transaction leaves no trace: taking the steps back that were made,
/// the last one first, gives the scheduling from before, however many they
/// were.
pub proof fn undo_restores_the_original(
    original: SchedulingView,
    desired: SchedulingView,
    n: nat,
)
    requires
        clamps_differ(original, desired) ==> original.uclamp_min is Some
            && original.uclamp_max is Some,
        n <= forward_steps(original, desired).len(),
    ensures
        ({
            let steps = forward_steps(original, desired);
            run_steps(
                run_steps(original, steps, n),
                undo_steps(original, steps, n),
                n,
            ) == original
        }),
{
    reveal_with_fuel(run_steps, 6);
    let steps = forward_steps(original, desired);
    assert(steps.len() <= 4);
}

/// Nothing is changed where nothing differs.
pub proof fn no_change_makes_no_step(original: SchedulingView)
    ensures
        forward_steps(original, original).len() == 0,
{
}

/// The status record of a process.
pub open spec fn stat_path(root: Seq<char>, process: u32) -> Seq<char> {
    root + "/"@ + decimal_text(process as nat) + "/stat"@
}

/// What the kernel says of the scheduling of a task, taken together. The policy
/// is read twice, and must be the same both times.
pub open spec fn scheduling_of(
    root: Seq<char>,
    process: u32,
    affinity: Set<u32>,
    nice: i32,
    sched: Seq<char>,
    stat: Seq<char>,
) -> Result<SchedulingView, PlatformErrorView> {
    if !(i8::MIN <= nice <= i8::MAX) {
        Err(
            malformed(
                sched_path(root, process),
                "kernel returned unrepresentable nice value "@ + signed_text(nice as int) + ": "@
                    + OUT_OF_RANGE@,
            ),
        )
    } else {
        match parsed_sched(sched_path(root, process), sched) {
            Err(e) => Err(e),
            Ok(first) => match parsed_stat(stat_path(root, process), stat) {
                Err(e) => Err(e),
                Ok(second) => if first.policy != second.policy {
                    Err(
                        malformed(
                            stat_path(root, process),
                            "scheduler policy changed during read: sched reported "@ + class_text(
                                first.policy,
                            ) + ", stat reported "@ + class_text(second.policy),
                        ),
                    )
                } else {
                    Ok(
                        SchedulingView {
                            affinity,
                            nice: nice as i8,
                            policy: second.policy,
                            rt_priority: second.rt_priority,
                            uclamp_min: first.uclamp_min,
                            uclamp_max: first.uclamp_max,
                        },
                    )
                },
            },
        }
    }
}

/// The nice value that the kernel gave, or why it is none.
pub fn checked_nice(root: &str, process: u32, nice: i32) -> (r: PlatformResult<i8>)
    ensures
        match r {
            Ok(n) => n == nice,
            Err(e) => !(i8::MIN <= nice <= i8::MAX) && e@ == malformed(
                sched_path(root@, process),
                "kernel returned unrepresentable nice value "@ + signed_text(nice as int) + ": "@
                    + OUT_OF_RANGE@,
            ),
        },
{
    if nice < i8::MIN as i32 || nice > i8::MAX as i32 {
        let path = scheduling_path(root, process);
        let number = format_i64(nice as i64);
        let message = cat4(
            "kernel returned unrepresentable nice value ",
            number.as_str(),
            ": ",
            OUT_OF_RANGE,
        );
        return Err(PlatformError::invalid(path.as_str(), message.as_str()));
    }
    Ok(nice as i8)
}

/// What the kernel says of the scheduling of a task, taken together.
pub fn assemble_scheduling(
    root: &str,
    process: u32,
    affinity: CpuIds,
    nice: i32,
    sched: &str,
    stat: &str,
) -> (r: PlatformResult<ProcessSchedulingState>)
    ensures
        match r {
            Ok(s) => scheduling_of(root@, process, affinity@, nice, sched@, stat@) == Ok::<
                SchedulingView,
                PlatformErrorView,
            >(s@),
            Err(e) => scheduling_of(root@, process, affinity@, nice, sched@, stat@) == Err::<
                SchedulingView,
                PlatformErrorView,
            >(e@),
        },
{
    let path = scheduling_path(root, process);
    let nice: i8 = match checked_nice(root, process, nice) {
        Err(e) => {
            return Err(e);
        },
        Ok(n) => n,
    };
    let first = match parse_scheduler_file(path.as_str(), sched) {
        Err(e) => {
            return Err(e);
        },
        Ok(p) => p,
    };
    let number = format_u64(process as u64);
    let second_path = cat4(root, "/", number.as_str(), "/stat");
    let second = match parse_scheduler_stat(second_path.as_str(), stat) {
        Err(e) => {
            return Err(e);
        },
        Ok(p) => p,
    };
    if first.policy != second.policy {
        let message = cat4(
            "scheduler policy changed during read: sched reported ",
            class_name(first.policy),
            ", stat reported ",
            class_name(second.policy),
        );
        return Err(PlatformError::invalid(second_path.as_str(), message.as_str()));
    }
    Ok(
        ProcessSchedulingState {
            affinity,
            nice,
            policy: second.policy,
            rt_priority: second.rt_priority,
            uclamp_min: first.uclamp_min,
            uclamp_max: first.uclamp_max,
        },
    )
}

} // verus!
