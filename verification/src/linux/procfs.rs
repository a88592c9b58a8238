//! Process and CPU observations: the formats of the procfs files.

use vstd::prelude::*;
use vstd::utf8::{decode_utf8, encode_utf8, valid_utf8};
use crate::model::{ProcessIdentity, ProcessInfo, ProcessView};
use crate::number::{
    decimal_text, format_u64, parse_u32, parsed_unsigned, unsigned_error,
    unsigned_error_text,
};
use crate::order::{sort_numbers, sorted_numbers};
use crate::platform::{
    malformed, Clock, CpuCounters, CpuTimeSnapshot, CpuTimes, IoFailure, IoKind, PlatformError,
    PlatformErrorView, PlatformResult,
};
use crate::text::{
    cat2, cat3, cat5, chars_of, has_prefix, lines, lines_of, lossy_text, read_utf8, same, split_words,
    starts_with, string_of, texts, trim, trimmed, utf8_error, utf8_lossy, words, Divider,
};
use super::scheduler::process_failure;

verus! {

/// What became of a failed call on a process.
pub fn map_proc_io(operation: &'static str, path: &str, source: IoFailure) -> (e: PlatformError)
    ensures
        e@ == process_failure(operation@, path@, source@),
{
    if source.kind == IoKind::NotFound {
        PlatformError::Disappeared(path.to_owned())
    } else {
        PlatformError::io(operation, path, source)
    }
}

/// The number that a text gives, or the given complaint.
pub open spec fn number_in(
    path: Seq<char>,
    complaint: Seq<char>,
    value: Seq<char>,
    max: nat,
) -> Result<nat, PlatformErrorView> {
    match parsed_unsigned(value, max) {
        Some(n) => Ok(n),
        None => Err(malformed(path, complaint + unsigned_error(value, max))),
    }
}

/// The number that a text gives, or the given complaint.
fn parse_number(path: &str, complaint: &str, value: &str, max: u64) -> (r: PlatformResult<u64>)
    ensures
        match r {
            Ok(n) => number_in(path@, complaint@, value@, max as nat) == Ok::<nat, PlatformErrorView>(
                n as nat,
            ),
            Err(e) => number_in(path@, complaint@, value@, max as nat) == Err::<
                nat,
                PlatformErrorView,
            >(e@),
        },
{
    match crate::number::parse_unsigned(value, max) {
        Some(n) => Ok(n),
        None => {
            let why = unsigned_error_text(value, max);
            let message = cat2(complaint, why);
            Err(PlatformError::invalid(path, message.as_str()))
        },
    }
}

/// The numbers that the first `n` texts give; the first bad one decides.
pub open spec fn numbers_in(
    path: Seq<char>,
    complaint: Seq<char>,
    values: Seq<Seq<char>>,
    n: nat,
    max: nat,
) -> Result<Seq<nat>, PlatformErrorView>
    decreases n,
{
    if n == 0 {
        Ok(Seq::empty())
    } else {
        match numbers_in(path, complaint, values, (n - 1) as nat, max) {
            Err(e) => Err(e),
            Ok(before) => match number_in(path, complaint, values[n - 1], max) {
                Err(e) => Err(e),
                Ok(x) => Ok(before.push(x)),
            },
        }
    }
}

proof fn numbers_error_stands(
    path: Seq<char>,
    complaint: Seq<char>,
    values: Seq<Seq<char>>,
    n: nat,
    k: nat,
    max: nat,
)
    requires
        n <= k,
        numbers_in(path, complaint, values, n, max) is Err,
    ensures
        numbers_in(path, complaint, values, k, max) == numbers_in(path, complaint, values, n, max),
    decreases k,
{
    if n < k {
        numbers_error_stands(path, complaint, values, n, (k - 1) as nat, max);
    }
}

/// Numbers as the model has them.
pub open spec fn nats(v: Seq<u64>) -> Seq<nat> {
    Seq::new(v.len(), |i: int| v[i] as nat)
}

/// The numbers that the texts from position `from` give.
fn parse_numbers(path: &str, complaint: &str, values: &Vec<String>, from: usize, max: u64) -> (r:
    PlatformResult<Vec<u64>>)
    requires
        from <= values@.len(),
    ensures
        ({
            let v = texts(values@).skip(from as int);
            match r {
                Ok(out) => numbers_in(path@, complaint@, v, v.len(), max as nat) == Ok::<
                    Seq<nat>,
                    PlatformErrorView,
                >(nats(out@)) && forall|i: int| 0 <= i < out@.len() ==> #[trigger] out@[i] <= max,
                Err(e) => numbers_in(path@, complaint@, v, v.len(), max as nat) == Err::<
                    Seq<nat>,
                    PlatformErrorView,
                >(e@),
            }
        }),
{
    let ghost v = texts(values@).skip(from as int);
    let mut out: Vec<u64> = Vec::new();
    let mut i: usize = from;
    assert(nats(out@) =~= Seq::empty());
    while i < values.len()
        invariant
            from <= i <= values@.len(),
            v == texts(values@).skip(from as int),
            numbers_in(path@, complaint@, v, (i - from) as nat, max as nat) == Ok::<
                Seq<nat>,
                PlatformErrorView,
            >(nats(out@)),
            forall|k: int| 0 <= k < out@.len() ==> #[trigger] out@[k] <= max,
        decreases values@.len() - i,
    {
        assert(v[i - from] == values@[i as int]@);
        match parse_number(path, complaint, values[i].as_str(), max) {
            Err(e) => {
                proof {
                    numbers_error_stands(
                        path@,
                        complaint@,
                        v,
                        (i - from + 1) as nat,
                        v.len(),
                        max as nat,
                    );
                }
                return Err(e);
            },
            Ok(n) => {
                let ghost prior = out@;
                out.push(n);
                assert(nats(out@) =~= nats(prior).push(n as nat));
            },
        }
        i = i + 1;
    }
    Ok(out)
}

/// The counter at a position, zero where there is none.
pub open spec fn counter_at(v: Seq<nat>, i: int) -> u64 {
    if i < v.len() {
        v[i] as u64
    } else {
        0
    }
}

/// The counters of one line: four at least, the guest counters behind the
/// eighth are part of others and are left out.
pub open spec fn cpu_line(path: Seq<char>, line: Seq<char>) -> Result<CpuTimes, PlatformErrorView> {
    let values = words(line, Divider::Space);
    let v = if values.len() == 0 {
        values
    } else {
        values.skip(1)
    };
    match numbers_in(path, "invalid counter: "@, v, v.len(), u64::MAX as nat) {
        Err(e) => Err(e),
        Ok(c) => if c.len() < 4 {
            Err(malformed(path, "cpu line has fewer than four counters"@))
        } else {
            Ok(
                CpuTimes {
                    user: counter_at(c, 0),
                    nice: counter_at(c, 1),
                    system: counter_at(c, 2),
                    idle: counter_at(c, 3),
                    io_wait: counter_at(c, 4),
                    irq: counter_at(c, 5),
                    soft_irq: counter_at(c, 6),
                    steal: counter_at(c, 7),
                },
            )
        },
    }
}

/// The counter at a position.
fn counter(v: &Vec<u64>, i: usize) -> (r: u64)
    ensures
        r == counter_at(nats(v@), i as int),
{
    if i < v.len() {
        v[i]
    } else {
        0
    }
}

/// The counters of one line.
pub fn parse_cpu_line(path: &str, line: &str) -> (r: PlatformResult<CpuTimes>)
    ensures
        match r {
            Ok(t) => cpu_line(path@, line@) == Ok::<CpuTimes, PlatformErrorView>(t),
            Err(e) => cpu_line(path@, line@) == Err::<CpuTimes, PlatformErrorView>(e@),
        },
{
    let values = split_words(line, Divider::Space);
    assert(texts(values@).len() == values@.len());
    let from: usize = if values.len() == 0 {
        0
    } else {
        1
    };
    assert(values@.len() == 0 ==> texts(values@).skip(0) =~= texts(values@));
    match parse_numbers(path, "invalid counter: ", &values, from, u64::MAX) {
        Err(e) => Err(e),
        Ok(v) => {
            if v.len() < 4 {
                return Err(PlatformError::invalid(path, "cpu line has fewer than four counters"));
            }
            Ok(
                CpuTimes {
                    user: counter(&v, 0),
                    nice: counter(&v, 1),
                    system: counter(&v, 2),
                    idle: counter(&v, 3),
                    io_wait: counter(&v, 4),
                    irq: counter(&v, 5),
                    soft_irq: counter(&v, 6),
                    steal: counter(&v, 7),
                },
            )
        },
    }
}

/// What was gathered of the CPU counters so far.
pub struct StatFold {
    pub aggregate: Option<CpuTimes>,
    pub cpus: Map<u32, CpuTimes>,
}

/// What one line of the counter file adds. Lines that are not about CPUs add
/// nothing.
pub open spec fn stat_line(path: Seq<char>, f: StatFold, line: Seq<char>) -> Result<
    StatFold,
    PlatformErrorView,
> {
    let w = words(line, Divider::Space);
    if w.len() == 0 || !has_prefix(w[0], "cpu"@) {
        Ok(f)
    } else {
        match cpu_line(path, line) {
            Err(e) => Err(e),
            Ok(times) => if w[0] == "cpu"@ {
                if f.aggregate is Some {
                    Err(malformed(path, "duplicate aggregate cpu line"@))
                } else {
                    Ok(StatFold { aggregate: Some(times), ..f })
                }
            } else {
                match number_in(path, "invalid CPU label: "@, w[0].skip(3), u32::MAX as nat) {
                    Err(e) => Err(e),
                    Ok(id) => if f.cpus.dom().contains(id as u32) {
                        Err(
                            malformed(
                                path,
                                "duplicate cpu"@ + decimal_text(id) + " line"@,
                            ),
                        )
                    } else {
                        Ok(StatFold { cpus: f.cpus.insert(id as u32, times), ..f })
                    },
                }
            },
        }
    }
}

/// What the first `n` lines of the counter file give; the first bad line
/// decides.
pub open spec fn stat_lines(path: Seq<char>, all: Seq<Seq<char>>, n: nat) -> Result<
    StatFold,
    PlatformErrorView,
>
    decreases n,
{
    if n == 0 {
        Ok(StatFold { aggregate: None, cpus: Map::empty() })
    } else {
        match stat_lines(path, all, (n - 1) as nat) {
            Err(e) => Err(e),
            Ok(f) => stat_line(path, f, all[n - 1]),
        }
    }
}

/// What the counter file gives, or why it makes no sense.
pub open spec fn stat_times(path: Seq<char>, contents: Seq<char>) -> Result<
    (CpuTimes, Map<u32, CpuTimes>),
    PlatformErrorView,
> {
    let all = lines_of(contents);
    match stat_lines(path, all, all.len()) {
        Err(e) => Err(e),
        Ok(f) => match f.aggregate {
            None => Err(malformed(path, "missing aggregate cpu line"@)),
            Some(a) => Ok((a, f.cpus)),
        },
    }
}

proof fn stat_error_stands(path: Seq<char>, all: Seq<Seq<char>>, n: nat, k: nat)
    requires
        n <= k,
        stat_lines(path, all, n) is Err,
    ensures
        stat_lines(path, all, k) == stat_lines(path, all, n),
    decreases k,
{
    if n < k {
        stat_error_stands(path, all, n, (k - 1) as nat);
    }
}

/// Whether counters stand in ascending order of their CPUs.
pub open spec fn by_cpu(v: Seq<CpuCounters>) -> bool {
    forall|i: int, j: int| 0 <= i < j < v.len() ==> v[i].cpu < v[j].cpu
}

/// The counters as a map.
pub open spec fn counters_map(v: Seq<CpuCounters>) -> Map<u32, CpuTimes> {
    Map::new(
        |c: u32| exists|i: int| 0 <= i < v.len() && (#[trigger] v[i]).cpu == c,
        |c: u32| v[choose|i: int| 0 <= i < v.len() && (#[trigger] v[i]).cpu == c].times,
    )
}

proof fn counters_at(v: Seq<CpuCounters>, i: int)
    requires
        by_cpu(v),
        0 <= i < v.len(),
    ensures
        counters_map(v).dom().contains(v[i].cpu),
        counters_map(v)[v[i].cpu] == v[i].times,
{
    let c = v[i].cpu;
    let k = choose|k: int| 0 <= k < v.len() && (#[trigger] v[k]).cpu == c;
    assert(k == i);
}

/// Puts counters at their place, unless there are some for the CPU.
fn put_counters(v: &mut Vec<CpuCounters>, cpu: u32, times: CpuTimes) -> (new: bool)
    requires
        by_cpu(old(v)@),
    ensures
        by_cpu(final(v)@),
        new == !counters_map(old(v)@).dom().contains(cpu),
        new ==> counters_map(final(v)@) == counters_map(old(v)@).insert(cpu, times),
        !new ==> final(v)@ == old(v)@,
{
    let ghost before = v@;
    let mut i: usize = 0;
    while i < v.len() && v[i].cpu < cpu
        invariant
            i <= v@.len(),
            v@ == before,
            forall|j: int| 0 <= j < i ==> (#[trigger] v@[j]).cpu < cpu,
        decreases v@.len() - i,
    {
        i = i + 1;
    }
    if i < v.len() && v[i].cpu == cpu {
        assert(before[i as int].cpu == cpu);
        return false;
    }
    v.insert(i, CpuCounters { cpu, times });
    proof {
        let after = v@;
        assert(after[i as int].cpu == cpu);
        if counters_map(before).dom().contains(cpu) {
            let k = choose|k: int| 0 <= k < before.len() && (#[trigger] before[k]).cpu == cpu;
            assert(k >= i);
            assert(k > i ==> before[i as int].cpu < before[k].cpu);
        }
        assert forall|c: u32| counters_map(after).dom().contains(c) <==> counters_map(before).insert(
            cpu,
            times,
        ).dom().contains(c) by {
            if counters_map(after).dom().contains(c) {
                let k = choose|k: int| 0 <= k < after.len() && (#[trigger] after[k]).cpu == c;
                if k < i {
                    assert(before[k].cpu == c);
                } else if k > i {
                    assert(before[k - 1].cpu == c);
                }
            }
            if counters_map(before).dom().contains(c) {
                let k = choose|k: int| 0 <= k < before.len() && (#[trigger] before[k]).cpu == c;
                let m = if k < i {
                    k
                } else {
                    k + 1
                };
                assert(after[m].cpu == c);
            }
        }
        assert forall|c: u32| counters_map(after).dom().contains(c) implies counters_map(after)[c]
            == counters_map(before).insert(cpu, times)[c] by {
            let k = choose|k: int| 0 <= k < after.len() && (#[trigger] after[k]).cpu == c;
            counters_at(after, k);
            counters_at(after, i as int);
            if c != cpu {
                let o = if k < i {
                    k
                } else {
                    k - 1
                };
                counters_at(before, o);
            }
        }
        assert(counters_map(after) =~= counters_map(before).insert(cpu, times));
    }
    true
}

/// What one line of the counter file adds.
fn take_stat_line(
    path: &str,
    aggregate: &mut Option<CpuTimes>,
    cpus: &mut Vec<CpuCounters>,
    line: &str,
) -> (r: PlatformResult<()>)
    requires
        by_cpu(old(cpus)@),
    ensures
        by_cpu(final(cpus)@),
        ({
            let before = StatFold { aggregate: *old(aggregate), cpus: counters_map(old(cpus)@) };
            match r {
                Ok(()) => stat_line(path@, before, line@) == Ok::<StatFold, PlatformErrorView>(
                    StatFold { aggregate: *final(aggregate), cpus: counters_map(final(cpus)@) },
                ),
                Err(e) => stat_line(path@, before, line@) == Err::<StatFold, PlatformErrorView>(e@),
            }
        }),
{
    let w = split_words(line, Divider::Space);
    assert(texts(w@).len() == w@.len());
    if w.len() == 0 {
        return Ok(());
    }
    let label = w[0].as_str();
    assert(label@ == texts(w@)[0]);
    if !starts_with(label, "cpu") {
        return Ok(());
    }
    let times = match parse_cpu_line(path, line) {
        Err(e) => {
            return Err(e);
        },
        Ok(t) => t,
    };
    if same(label, "cpu") {
        if aggregate.is_some() {
            return Err(PlatformError::invalid(path, "duplicate aggregate cpu line"));
        }
        *aggregate = Some(times);
        return Ok(());
    }
    let chars = chars_of(label);
    proof {
        reveal_strlit("cpu");
        assert("cpu"@.len() == 3);
    }
    let number = string_of(&chars, 3, chars.len());
    assert(number@ =~= label@.skip(3));
    let id: u32 = match parse_number(path, "invalid CPU label: ", number.as_str(), u32::MAX as u64) {
        Err(e) => {
            return Err(e);
        },
        Ok(n) => {
            assert(n <= u32::MAX);
            n as u32
        },
    };
    if !put_counters(cpus, id, times) {
        let text = format_u64(id as u64);
        let message = cat3("duplicate cpu", text.as_str(), " line");
        return Err(PlatformError::invalid(path, message.as_str()));
    }
    Ok(())
}

/// What the counter file gives.
pub fn parse_cpu_times(path: &str, contents: &str, observed_at: u64) -> (r: PlatformResult<
    CpuTimeSnapshot,
>)
    ensures
        match r {
            Ok(s) => {
                &&& s.observed_at == observed_at
                &&& by_cpu(s.cpus@)
                &&& stat_times(path@, contents@) == Ok::<
                    (CpuTimes, Map<u32, CpuTimes>),
                    PlatformErrorView,
                >((s.aggregate, counters_map(s.cpus@)))
            },
            Err(e) => stat_times(path@, contents@) == Err::<
                (CpuTimes, Map<u32, CpuTimes>),
                PlatformErrorView,
            >(e@),
        },
{
    let all = lines(contents);
    let ghost v = lines_of(contents@);
    assert(v.len() == all@.len());
    let mut aggregate: Option<CpuTimes> = None;
    let mut cpus: Vec<CpuCounters> = Vec::new();
    let mut i: usize = 0;
    assert(counters_map(cpus@) =~= Map::<u32, CpuTimes>::empty());
    while i < all.len()
        invariant
            i <= all@.len(),
            v == texts(all@),
            v == lines_of(contents@),
            by_cpu(cpus@),
            stat_lines(path@, v, i as nat) == Ok::<StatFold, PlatformErrorView>(
                StatFold { aggregate, cpus: counters_map(cpus@) },
            ),
        decreases all@.len() - i,
    {
        assert(v[i as int] == all@[i as int]@);
        if let Err(e) = take_stat_line(path, &mut aggregate, &mut cpus, all[i].as_str()) {
            proof {
                stat_error_stands(path@, v, (i + 1) as nat, v.len());
            }
            return Err(e);
        }
        i = i + 1;
    }
    match aggregate {
        None => Err(PlatformError::invalid(path, "missing aggregate cpu line")),
        Some(aggregate) => Ok(CpuTimeSnapshot { observed_at, aggregate, cpus }),
    }
}

/// The user identifiers of a process: the first line that names them gives
/// exactly four.
pub open spec fn uid_line(path: Seq<char>, all: Seq<Seq<char>>, k: int) -> Result<
    Seq<nat>,
    PlatformErrorView,
>
    decreases all.len() - k,
{
    if k < 0 || k >= all.len() {
        Err(malformed(path, "missing Uid line"@))
    } else if has_prefix(all[k], "Uid:"@) {
        let w = words(all[k].skip(4), Divider::Space);
        match numbers_in(path, "invalid UID: "@, w, w.len(), u32::MAX as nat) {
            Err(e) => Err(e),
            Ok(v) => if v.len() == 4 {
                Ok(v)
            } else {
                Err(
                    malformed(
                        path,
                        "Uid line has "@ + decimal_text(v.len()) + " values instead of four"@,
                    ),
                )
            },
        }
    } else {
        uid_line(path, all, k + 1)
    }
}

/// The user identifiers that one line gives.
fn parse_uid_line(path: &str, line: &str, v: Ghost<Seq<Seq<char>>>, k: Ghost<int>) -> (r:
    PlatformResult<[u32; 4]>)
    requires
        0 <= k@ < v@.len(),
        v@[k@] == line@,
        has_prefix(line@, "Uid:"@),
    ensures
        match r {
            Ok(u) => uid_line(path@, v@, k@) == Ok::<Seq<nat>, PlatformErrorView>(
                Seq::new(4, |i: int| u@[i] as nat),
            ),
            Err(e) => uid_line(path@, v@, k@) == Err::<Seq<nat>, PlatformErrorView>(e@),
        },
{
    let chars = chars_of(line);
    proof {
        reveal_strlit("Uid:");
        assert("Uid:"@.len() == 4);
    }
    let rest = string_of(&chars, 4, chars.len());
    assert(rest@ =~= line@.skip(4));
    let w = split_words(rest.as_str(), Divider::Space);
    assert(texts(w@).skip(0) =~= texts(w@));
    match parse_numbers(path, "invalid UID: ", &w, 0, u32::MAX as u64) {
        Err(e) => Err(e),
        Ok(n) => {
            if n.len() != 4 {
                let text = format_u64(n.len() as u64);
                let message = cat3("Uid line has ", text.as_str(), " values instead of four");
                return Err(PlatformError::invalid(path, message.as_str()));
            }
            let out = [n[0] as u32, n[1] as u32, n[2] as u32, n[3] as u32];
            assert(nats(n@) =~= Seq::new(4, |i: int| out@[i] as nat));
            Ok(out)
        },
    }
}

/// The real, effective, saved and filesystem user of a process.
pub fn parse_uids(path: &str, contents: &str) -> (r: PlatformResult<[u32; 4]>)
    ensures
        match r {
            Ok(u) => uid_line(path@, lines_of(contents@), 0) == Ok::<Seq<nat>, PlatformErrorView>(
                Seq::new(4, |i: int| u@[i] as nat),
            ),
            Err(e) => uid_line(path@, lines_of(contents@), 0) == Err::<Seq<nat>, PlatformErrorView>(
                e@,
            ),
        },
{
    let all = lines(contents);
    let ghost v = lines_of(contents@);
    assert(v.len() == all@.len());
    let mut k: usize = 0;
    while k < all.len()
        invariant
            k <= all@.len(),
            v == texts(all@),
            v == lines_of(contents@),
            uid_line(path@, v, 0) == uid_line(path@, v, k as int),
        decreases all@.len() - k,
    {
        assert(v[k as int] == all@[k as int]@);
        if starts_with(all[k].as_str(), "Uid:") {
            return parse_uid_line(path, all[k].as_str(), Ghost(v), Ghost(k as int));
        }
        k = k + 1;
    }
    Err(PlatformError::invalid(path, "missing Uid line"))
}

/// What the status record of a process says.
#[derive(Debug, PartialEq, Eq)]
pub struct ParsedProcessStat {
    pub comm: String,
    pub start_time_ticks: u64,
}

/// The first position of a byte from `k` on.
pub open spec fn first_byte(bytes: Seq<u8>, b: u8, k: int) -> Option<int>
    decreases bytes.len() - k,
{
    if k < 0 || k >= bytes.len() {
        None
    } else if bytes[k] == b {
        Some(k)
    } else {
        first_byte(bytes, b, k + 1)
    }
}

/// The last position of a byte before `n`.
pub open spec fn last_byte(bytes: Seq<u8>, b: u8, n: nat) -> Option<int>
    decreases n,
{
    if n == 0 {
        None
    } else if bytes[n - 1] == b {
        Some(n - 1)
    } else {
        last_byte(bytes, b, (n - 1) as nat)
    }
}

/// The start time in the fields behind the process name, or why there is none.
/// It is the twenty-second field of the record.
pub open spec fn start_time(path: Seq<char>, tail: Seq<char>) -> Result<nat, PlatformErrorView> {
    let f = words(tail, Divider::Space);
    if f.len() <= 19 {
        Err(malformed(path, "stat has fewer than 22 fields"@))
    } else {
        number_in(path, "invalid starttime: "@, f[19], u64::MAX as nat)
    }
}

/// Why the process number before the name is not the expected one, if so.
pub open spec fn stat_pid(path: Seq<char>, head: Seq<char>, expected: u32) -> Option<
    PlatformErrorView,
> {
    match number_in(path, "invalid PID: "@, trimmed(head), u32::MAX as nat) {
        Err(e) => Some(e),
        Ok(pid) => if pid == expected {
            None
        } else {
            Some(
                malformed(
                    path,
                    "PID in stat ("@ + decimal_text(pid) + ") differs from directory ("@
                        + decimal_text(expected as nat) + ")"@,
                ),
            )
        },
    }
}

/// Where the process name stands: from the first opening to the last closing
/// bracket.
pub open spec fn name_span(bytes: Seq<u8>) -> Option<(int, int)> {
    match (first_byte(bytes, 0x28, 0), last_byte(bytes, 0x29, bytes.len())) {
        (Some(open), Some(close)) => if close > open {
            Some((open, close))
        } else {
            None
        },
        _ => None,
    }
}

/// What a status record says: the name and the start time of the process, or
/// why the record makes no sense.
pub open spec fn process_stat(path: Seq<char>, bytes: Seq<u8>, expected: u32) -> Result<
    (Seq<char>, nat),
    PlatformErrorView,
> {
    if first_byte(bytes, 0x28, 0) is None {
        Err(malformed(path, "missing command opening parenthesis"@))
    } else {
        match name_span(bytes) {
            None => Err(malformed(path, "missing command closing parenthesis"@)),
            Some((open, close)) => {
                let before = bytes.take(open);
                let behind = bytes.skip(close + 1);
                if !valid_utf8(before) {
                    Err(malformed(path, "invalid PID bytes: "@ + utf8_error(before)))
                } else if let Some(e) = stat_pid(path, decode_utf8(before), expected) {
                    Err(e)
                } else if !valid_utf8(behind) {
                    Err(malformed(path, "invalid stat fields: "@ + utf8_error(behind)))
                } else {
                    match start_time(path, decode_utf8(behind)) {
                        Err(e) => Err(e),
                        Ok(t) => Ok((lossy_text(bytes.subrange(open + 1, close)), t)),
                    }
                }
            },
        }
    }
}

/// The part of a slice from `from` to `to`, as a vector.
fn bytes_of(bytes: &[u8], from: usize, to: usize) -> (out: Vec<u8>)
    requires
        from <= to <= bytes@.len(),
    ensures
        out@ == bytes@.subrange(from as int, to as int),
{
    let mut out: Vec<u8> = Vec::new();
    let mut i: usize = from;
    while i < to
        invariant
            from <= i <= to <= bytes@.len(),
            out@ == bytes@.subrange(from as int, i as int),
        decreases to - i,
    {
        out.push(bytes[i]);
        i = i + 1;
        assert(out@ =~= bytes@.subrange(from as int, i as int));
    }
    out
}

/// The first opening bracket.
fn find_open(bytes: &[u8]) -> (r: Option<usize>)
    ensures
        match r {
            Some(k) => first_byte(bytes@, 0x28, 0) == Some(k as int) && k < bytes@.len(),
            None => first_byte(bytes@, 0x28, 0) is None,
        },
{
    let mut k: usize = 0;
    while k < bytes.len()
        invariant
            k <= bytes@.len(),
            first_byte(bytes@, 0x28, 0) == first_byte(bytes@, 0x28, k as int),
        decreases bytes@.len() - k,
    {
        if bytes[k] == 0x28 {
            return Some(k);
        }
        k = k + 1;
    }
    None
}

/// The last closing bracket.
fn find_close(bytes: &[u8]) -> (r: Option<usize>)
    ensures
        match r {
            Some(k) => last_byte(bytes@, 0x29, bytes@.len()) == Some(k as int) && k < bytes@.len(),
            None => last_byte(bytes@, 0x29, bytes@.len()) is None,
        },
{
    let mut n: usize = bytes.len();
    while n > 0
        invariant
            n <= bytes@.len(),
            last_byte(bytes@, 0x29, bytes@.len()) == last_byte(bytes@, 0x29, n as nat),
        decreases n,
    {
        if bytes[n - 1] == 0x29 {
            return Some(n - 1);
        }
        n = n - 1;
    }
    None
}

/// Checks the process number before the name.
fn check_pid(path: &str, head: &str, expected: u32) -> (r: PlatformResult<()>)
    ensures
        match r {
            Ok(()) => stat_pid(path@, head@, expected) is None,
            Err(e) => stat_pid(path@, head@, expected) == Some(e@),
        },
{
    let inner = trim(head);
    match parse_number(path, "invalid PID: ", inner.as_str(), u32::MAX as u64) {
        Err(e) => Err(e),
        Ok(pid) => {
            if pid != expected as u64 {
                let a = format_u64(pid);
                let b = format_u64(expected as u64);
                let message = cat5(
                    "PID in stat (",
                    a.as_str(),
                    ") differs from directory (",
                    b.as_str(),
                    ")",
                );
                return Err(PlatformError::invalid(path, message.as_str()));
            }
            Ok(())
        },
    }
}

/// The start time in the fields behind the process name.
fn parse_start_time(path: &str, tail: &str) -> (r: PlatformResult<u64>)
    ensures
        match r {
            Ok(t) => start_time(path@, tail@) == Ok::<nat, PlatformErrorView>(t as nat),
            Err(e) => start_time(path@, tail@) == Err::<nat, PlatformErrorView>(e@),
        },
{
    let f = split_words(tail, Divider::Space);
    assert(texts(f@).len() == f@.len());
    if f.len() <= 19 {
        return Err(PlatformError::invalid(path, "stat has fewer than 22 fields"));
    }
    assert(texts(f@)[19] == f@[19]@);
    parse_number(path, "invalid starttime: ", f[19].as_str(), u64::MAX)
}

/// The bytes of the process name.
pub open spec fn name_bytes(bytes: Seq<u8>) -> Seq<u8> {
    match name_span(bytes) {
        Some((open, close)) => bytes.subrange(open + 1, close),
        None => Seq::empty(),
    }
}

/// What the status record of a process says. The name is only shown and
/// matched: bytes in it that are not UTF-8 are replaced, and a name that is
/// UTF-8 is kept as it is.
pub fn parse_process_stat_bytes(path: &str, contents: &[u8], expected_pid: u32) -> (r: PlatformResult<
    ParsedProcessStat,
>)
    ensures
        match r {
            Ok(p) => {
                &&& process_stat(path@, contents@, expected_pid) == Ok::<
                    (Seq<char>, nat),
                    PlatformErrorView,
                >((p.comm@, p.start_time_ticks as nat))
                &&& valid_utf8(name_bytes(contents@)) ==> encode_utf8(p.comm@) == name_bytes(
                    contents@,
                )
            },
            Err(e) => process_stat(path@, contents@, expected_pid) == Err::<
                (Seq<char>, nat),
                PlatformErrorView,
            >(e@),
        },
{
    let open: usize = match find_open(contents) {
        None => {
            return Err(PlatformError::invalid(path, "missing command opening parenthesis"));
        },
        Some(k) => k,
    };
    let close: usize = match find_close(contents) {
        None => {
            return Err(PlatformError::invalid(path, "missing command closing parenthesis"));
        },
        Some(k) => {
            if k <= open {
                return Err(PlatformError::invalid(path, "missing command closing parenthesis"));
            }
            k
        },
    };
    let total: usize = contents.len();
    let before = bytes_of(contents, 0, open);
    let behind = bytes_of(contents, close + 1, total);
    let name = bytes_of(contents, open + 1, close);
    assert(before@ =~= contents@.take(open as int));
    assert(behind@ =~= contents@.skip(close + 1));
    let head = match read_utf8(before.as_slice()) {
        Err(e) => {
            let message = cat2("invalid PID bytes: ", e.as_str());
            return Err(PlatformError::invalid(path, message.as_str()));
        },
        Ok(s) => s,
    };
    if let Err(e) = check_pid(path, head.as_str(), expected_pid) {
        return Err(e);
    }
    let tail = match read_utf8(behind.as_slice()) {
        Err(e) => {
            let message = cat2("invalid stat fields: ", e.as_str());
            return Err(PlatformError::invalid(path, message.as_str()));
        },
        Ok(s) => s,
    };
    match parse_start_time(path, tail.as_str()) {
        Err(e) => Err(e),
        Ok(start_time_ticks) => Ok(
            ParsedProcessStat { comm: utf8_lossy(name.as_slice()), start_time_ticks },
        ),
    }
}

/// What the status record of a process says.
pub fn parse_process_stat(path: &str, contents: &str, expected_pid: u32) -> (r: PlatformResult<
    ParsedProcessStat,
>)
    ensures
        ({
            let bytes = encode_utf8(contents@);
            match r {
                Ok(p) => process_stat(path@, bytes, expected_pid) == Ok::<
                    (Seq<char>, nat),
                    PlatformErrorView,
                >((p.comm@, p.start_time_ticks as nat)),
                Err(e) => process_stat(path@, bytes, expected_pid) == Err::<
                    (Seq<char>, nat),
                    PlatformErrorView,
                >(e@),
            }
        }),
{
    parse_process_stat_bytes(path, contents.as_bytes(), expected_pid)
}

/// What is known of a process from its files: the record before and after the
/// other files were read, the users, and the program.
#[derive(Debug)]
pub struct ProcessFiles {
    pub before: ParsedProcessStat,
    pub uids: [u32; 4],
    pub executable: Option<String>,
    pub after: ParsedProcessStat,
}

/// The process that the files show, if it is the same one before and after they
/// were read.
pub open spec fn process_of(pid: u32, files: ProcessFiles) -> Option<ProcessView> {
    if files.before.start_time_ticks != files.after.start_time_ticks {
        None
    } else {
        Some(
            ProcessView {
                identity: ProcessIdentity {
                    pid,
                    start_time_ticks: files.after.start_time_ticks,
                    uid: files.uids@[0],
                },
                owner_control_safe: files.uids@[0] == files.uids@[1] && files.uids@[0]
                    == files.uids@[2] && files.uids@[0] == files.uids@[3],
                comm: files.after.comm@,
                executable: crate::text::opt_text(files.executable),
                desktop_id: None,
            },
        )
    }
}

/// The process that the files show. A process number that was reused while
/// they were read gives no process.
pub fn assemble_process(pid: u32, files: ProcessFiles) -> (r: PlatformResult<ProcessInfo>)
    ensures
        match r {
            Ok(p) => process_of(pid, files) == Some(p@),
            Err(e) => {
                &&& process_of(pid, files) is None
                &&& e@ == PlatformErrorView::Disappeared(
                    "process "@ + decimal_text(pid as nat)
                        + " changed identity while procfs was sampled"@,
                )
            },
        },
{
    let ProcessFiles { before, uids, executable, after } = files;
    if before.start_time_ticks != after.start_time_ticks {
        let number = format_u64(pid as u64);
        return Err(
            PlatformError::Disappeared(
                cat3(
                    "process ",
                    number.as_str(),
                    " changed identity while procfs was sampled",
                ),
            ),
        );
    }
    let uid: u32 = uids[0];
    let owner_control_safe = uid == uids[1] && uid == uids[2] && uid == uids[3];
    Ok(
        ProcessInfo {
            identity: ProcessIdentity { pid, start_time_ticks: after.start_time_ticks, uid },
            owner_control_safe,
            comm: after.comm,
            executable,
            desktop_id: None,
        },
    )
}

/// What is known of a program whose link could not be read: a missing or
/// forbidden link is no failure.
pub open spec fn link_is_optional(kind: IoKind) -> bool {
    kind == IoKind::NotFound || kind == IoKind::PermissionDenied
}

/// The program behind a link, or why it could not be read.
pub fn executable_of(path: &str, link: Result<String, IoFailure>) -> (r: PlatformResult<
    Option<String>,
>)
    ensures
        match link {
            Ok(s) => r is Ok && crate::text::opt_text(r->Ok_0) == Some(s@),
            Err(e) => if link_is_optional(e.kind) {
                r is Ok && r->Ok_0 is None
            } else {
                r is Err && r->Err_0@ == process_failure("read link"@, path@, e@)
            },
        },
{
    match link {
        Ok(s) => Ok(Some(s)),
        Err(e) => if e.kind == IoKind::NotFound || e.kind == IoKind::PermissionDenied {
            Ok(None)
        } else {
            Err(map_proc_io("read link", path, e))
        },
    }
}

/// The numbers that the first `n` names give, in their order; other names give
/// none.
pub open spec fn name_numbers(names: Seq<Seq<char>>, n: nat) -> Seq<u64>
    decreases n,
{
    if n == 0 {
        Seq::empty()
    } else {
        let before = name_numbers(names, (n - 1) as nat);
        match parsed_unsigned(names[n - 1], u32::MAX as nat) {
            Some(x) => before.push(x as u64),
            None => before,
        }
    }
}

/// Process numbers as larger integers.
pub open spec fn widened(v: Seq<u32>) -> Seq<u64> {
    Seq::new(v.len(), |i: int| v[i] as u64)
}

/// The process numbers among the names of a directory, sorted: other names are
/// passed over.
pub fn list_numeric_names(names: &Vec<String>) -> (out: Vec<u32>)
    ensures
        widened(out@) == sorted_numbers(name_numbers(texts(names@), names@.len())),
{
    let ghost v = texts(names@);
    let mut found: Vec<u64> = Vec::new();
    let mut i: usize = 0;
    while i < names.len()
        invariant
            i <= names@.len(),
            v == texts(names@),
            found@ == name_numbers(v, i as nat),
            forall|k: int| 0 <= k < found@.len() ==> #[trigger] found@[k] <= u32::MAX,
        decreases names@.len() - i,
    {
        assert(v[i as int] == names@[i as int]@);
        if let Some(n) = parse_u32(names[i].as_str()) {
            found.push(n as u64);
        }
        i = i + 1;
    }
    let sorted = sort_numbers(&found);
    let mut out: Vec<u32> = Vec::new();
    let mut k: usize = 0;
    proof {
        sorting_keeps_bounds(found@);
    }
    while k < sorted.len()
        invariant
            k <= sorted@.len(),
            forall|j: int| 0 <= j < sorted@.len() ==> #[trigger] sorted@[j] <= u32::MAX,
            widened(out@) == sorted@.take(k as int),
        decreases sorted@.len() - k,
    {
        let ghost before = out@;
        out.push(sorted[k] as u32);
        k = k + 1;
        assert(widened(out@) =~= sorted@.take(k as int)) by {
            assert(widened(before).push(sorted@[k - 1]) =~= sorted@.take(k as int));
        }
    }
    assert(sorted@.take(k as int) =~= sorted@);
    out
}

proof fn sorting_keeps_bounds(v: Seq<u64>)
    requires
        forall|k: int| 0 <= k < v.len() ==> #[trigger] v[k] <= u32::MAX,
    ensures
        forall|k: int| 0 <= k < sorted_numbers(v).len() ==> #[trigger] sorted_numbers(v)[k] <= u32::MAX,
{
    let leq = |a: u64, b: u64| a <= b;
    v.lemma_sort_by_ensures(leq);
    let s = sorted_numbers(v);
    assert forall|k: int| 0 <= k < s.len() implies #[trigger] s[k] <= u32::MAX by {
        broadcast use vstd::seq_lib::group_to_multiset_ensures;

        assert(s.contains(s[k]));
        assert(s.to_multiset().contains(s[k]));
        assert(v.to_multiset().contains(s[k]));
        assert(v.contains(s[k]));
    }
}

/// The real, effective, saved and filesystem user of a process, from the bytes
/// of its status file. Bytes that are not UTF-8 are replaced.
pub fn parse_uids_bytes(path: &str, contents: &[u8]) -> (r: PlatformResult<[u32; 4]>)
    ensures
        ({
            let all = lines_of(lossy_text(contents@));
            match r {
                Ok(u) => uid_line(path@, all, 0) == Ok::<Seq<nat>, PlatformErrorView>(
                    Seq::new(4, |i: int| u@[i] as nat),
                ),
                Err(e) => uid_line(path@, all, 0) == Err::<Seq<nat>, PlatformErrorView>(e@),
            }
        }),
{
    let text = utf8_lossy(contents);
    parse_uids(path, text.as_str())
}

/// A procfs adapter rooted at a host or fixture directory.
#[derive(Debug)]
pub struct LinuxProc {
    root: String,
}

impl LinuxProc {
    /// The physical root.
    pub closed spec fn root_view(&self) -> Seq<char> {
        self.root@
    }

    /// An adapter on the canonical form of a root, or the failure to find it.
    pub fn new(requested: &str, canonical: Result<String, IoFailure>) -> (r: PlatformResult<Self>)
        ensures
            match canonical {
                Ok(root) => r is Ok && r->Ok_0.root_view() == root@,
                Err(e) => r is Err && r->Err_0@ == (PlatformErrorView::Io {
                    operation: "canonicalize procfs root"@,
                    path: requested@,
                    source: e@,
                }),
            },
    {
        match canonical {
            Ok(root) => Ok(LinuxProc { root }),
            Err(e) => Err(PlatformError::io("canonicalize procfs root", requested, e)),
        }
    }

    /// The physical root.
    pub fn root(&self) -> (r: &str)
        ensures
            r@ == self.root_view(),
    {
        self.root.as_str()
    }

    /// The directory of a process.
    pub fn process_directory(&self, pid: u32) -> (out: String)
        ensures
            out@ == self.root_view() + "/"@ + decimal_text(pid as nat),
    {
        let number = format_u64(pid as u64);
        cat3(self.root.as_str(), "/", number.as_str())
    }
}

/// A point on the monotonic clock, `std::time::Instant`.
#[verifier::external_type_specification]
#[verifier::external_body]
pub struct ExInstant(std::time::Instant);

/// `std::time::Instant::now`: nothing is claimed of the moment.
pub assume_specification[ std::time::Instant::now ]() -> std::time::Instant;

/// `std::time::Instant::elapsed`: nothing is claimed of how long that is.
pub assume_specification[ std::time::Instant::elapsed ](
    epoch: &std::time::Instant,
) -> std::time::Duration;

/// `std::time::Duration::as_millis`: nothing is claimed of the number.
pub assume_specification[ std::time::Duration::as_millis ](
    duration: &std::time::Duration,
) -> u128;

/// A number of milliseconds, held at the largest that a clock shows.
pub open spec fn shown_millis(elapsed: u128) -> u64 {
    if elapsed > u64::MAX {
        u64::MAX
    } else {
        elapsed as u64
    }
}

/// A number of milliseconds, held at the largest that a clock shows.
pub fn clock_millis(elapsed: u128) -> (r: u64)
    ensures
        r == shown_millis(elapsed),
{
    if elapsed > u64::MAX as u128 {
        u64::MAX
    } else {
        elapsed as u64
    }
}

/// Whether so many milliseconds can have passed since a moment.
pub open spec fn passed(epoch: std::time::Instant, millis: u128) -> bool {
    exists|time: std::time::Duration|
        {
            &&& #[trigger] call_ensures(std::time::Instant::elapsed, (&epoch,), time)
            &&& call_ensures(std::time::Duration::as_millis, (&time,), millis)
        }
}

/// A monotonic clock that starts when it is made.
#[derive(Clone, Copy, Debug)]
pub struct LinuxClock {
    epoch: std::time::Instant,
}

impl LinuxClock {
    /// The moment at which the clock starts.
    pub closed spec fn start(&self) -> std::time::Instant {
        self.epoch
    }
}

impl Default for LinuxClock {
    fn default() -> (c: Self)
        ensures
            call_ensures(std::time::Instant::now, (), c.start()),
    {
        LinuxClock { epoch: std::time::Instant::now() }
    }
}

impl Clock for LinuxClock {
    fn monotonic_millis(&self) -> (r: u64)
        ensures
            exists|millis: u128| #[trigger] passed(self.start(), millis) && r == shown_millis(millis),
    {
        let time = self.epoch.elapsed();
        let millis: u128 = time.as_millis();
        assert(passed(self.start(), millis)) by {
            assert(call_ensures(std::time::Instant::elapsed, (&self.epoch,), time));
        }
        clock_millis(millis)
    }
}

proof fn first_byte_at(bytes: Seq<u8>, b: u8, k: int, at: int)
    requires
        0 <= k <= at < bytes.len(),
        bytes[at] == b,
        forall|i: int| k <= i < at ==> bytes[i] != b,
    ensures
        first_byte(bytes, b, k) == Some(at),
    decreases at - k,
{
    if k < at {
        first_byte_at(bytes, b, k + 1, at);
    }
}

proof fn last_byte_at(bytes: Seq<u8>, b: u8, n: nat, at: int)
    requires
        0 <= at < n <= bytes.len(),
        bytes[at] == b,
        forall|i: int| at < i < n ==> bytes[i] != b,
    ensures
        last_byte(bytes, b, n) == Some(at),
    decreases n,
{
    if n - 1 > at {
        last_byte_at(bytes, b, (n - 1) as nat, at);
    }
}

/// A process may have any name, with spaces, brackets or bytes that are no
/// text: it is found whole between the first opening and the last closing
/// bracket of its record.
pub proof fn any_name_is_found_whole(head: Seq<u8>, name: Seq<u8>, tail: Seq<u8>)
    requires
        !head.contains(0x28u8),
        !tail.contains(0x29u8),
    ensures
        ({
            let record = head.push(0x28u8) + name.push(0x29u8) + tail;
            let open = head.len() as int;
            let close = open + name.len() + 1;
            &&& name_span(record) == Some((open, close))
            &&& record.take(open) == head
            &&& record.subrange(open + 1, close) == name
            &&& record.skip(close + 1) == tail
        }),
{
    let record = head.push(0x28u8) + name.push(0x29u8) + tail;
    let open = head.len() as int;
    let close = open + name.len() + 1;
    assert forall|i: int| 0 <= i < open implies record[i] != 0x28u8 by {
        assert(record[i] == head[i]);
        assert(head.contains(head[i]));
    }
    assert(record[open] == 0x28u8);
    first_byte_at(record, 0x28u8, 0, open);
    assert forall|i: int| close < i < record.len() implies record[i] != 0x29u8 by {
        assert(record[i] == tail[i - close - 1]);
        assert(tail.contains(tail[i - close - 1]));
    }
    assert(record[close] == 0x29u8);
    last_byte_at(record, 0x29u8, record.len(), close);
    assert(record.take(open) =~= head);
    assert(record.subrange(open + 1, close) =~= name);
    assert(record.skip(close + 1) =~= tail);
}

} // verus!
