//! A deterministic stand-in for the platform: clock, processes and CPUs.

use std::sync::atomic::{AtomicU64, Ordering};
use std::sync::Arc;
use vstd::prelude::*;
use crate::cpuset::CpuIds;
use crate::model::{ProcessInfo, ProcessView};
use crate::number::{decimal_text, format_u64};
use crate::platform::{
    malformed, Clock, CpuCounters, CpuTimeSnapshot, OnlineCpuSource, PlatformError,
    PlatformErrorView, PlatformResult, ProcReader,
};
use crate::text::cat2;

verus! {

/// A clock that is advanced by hand. Copies share the time.
#[derive(Debug)]
pub struct FakeClock {
    now: Arc<AtomicU64>,
}

/// Whether a counter can be made that starts at a time.
pub open spec fn made_at(now: u64, cell: AtomicU64) -> bool {
    call_ensures(AtomicU64::new, (now,), cell)
}

/// Whether a time can be stored in a counter.
pub open spec fn stored(cell: AtomicU64, now: u64) -> bool {
    call_ensures(AtomicU64::store, (&cell, now, Ordering::SeqCst), ())
}

/// Whether a time can be read from a counter.
pub open spec fn loaded(cell: AtomicU64, now: u64) -> bool {
    call_ensures(AtomicU64::load, (&cell, Ordering::SeqCst), now)
}

/// Whether adding a step to a counter can give an earlier time.
pub open spec fn added(cell: AtomicU64, step: u64, previous: u64) -> bool {
    call_ensures(AtomicU64::fetch_add, (&cell, step, Ordering::SeqCst), previous)
}

impl Default for FakeClock {
    fn default() -> (c: Self)
        ensures
            made_at(0, c.cell()),
    {
        FakeClock::new(0)
    }
}

impl Clone for FakeClock {
    fn clone(&self) -> (c: Self)
        ensures
            c.cell() == self.cell(),
    {
        FakeClock { now: self.now.clone() }
    }
}

/// A time and a step, held at the largest time.
pub open spec fn advanced(previous: u64, milliseconds: u64) -> u64 {
    if previous + milliseconds > u64::MAX {
        u64::MAX
    } else {
        (previous + milliseconds) as u64
    }
}

/// The time that an advance from an earlier time gives.
pub fn advance_time(previous: u64, milliseconds: u64) -> (r: u64)
    ensures
        r == advanced(previous, milliseconds),
{
    previous.saturating_add(milliseconds)
}

impl FakeClock {
    /// The counter that holds the time.
    pub closed spec fn cell(&self) -> AtomicU64 {
        *self.now
    }

    /// A clock at the given time.
    pub fn new(now: u64) -> (c: Self)
        ensures
            made_at(now, c.cell()),
    {
        FakeClock { now: Arc::new(AtomicU64::new(now)) }
    }

    /// Sets the time.
    pub fn set(&self, now: u64)
        ensures
            stored(self.cell(), now),
    {
        self.now.store(now, Ordering::SeqCst);
    }

    /// Advances the time, whatever it is, and returns it.
    pub fn advance(&self, milliseconds: u64) -> (r: u64)
        ensures
            exists|previous: u64|
                {
                    &&& #[trigger] added(self.cell(), milliseconds, previous)
                    &&& r == advanced(previous, milliseconds)
                },
    {
        let previous: u64 = self.now.fetch_add(milliseconds, Ordering::SeqCst);
        assert(added(self.cell(), milliseconds, previous));
        advance_time(previous, milliseconds)
    }
}

impl Clock for FakeClock {
    fn monotonic_millis(&self) -> (r: u64)
        ensures
            loaded(self.cell(), r),
    {
        self.now.load(Ordering::SeqCst)
    }
}

/// A process with the number it is found under.
#[derive(Debug)]
struct KnownProcess {
    pid: u32,
    info: ProcessInfo,
}

/// The threads of a process.
#[derive(Debug)]
struct KnownThreads {
    pid: u32,
    threads: Vec<u32>,
}

/// In-memory process observations.
#[derive(Debug)]
pub struct FakeProc {
    cpu_times: Option<CpuTimeSnapshot>,
    processes: Vec<KnownProcess>,
    top_level: CpuIds,
    threads: Vec<KnownThreads>,
}

/// The view of [`FakeProc`].
pub struct FakeProcView {
    pub cpu_times: Option<CpuTimeSnapshot>,
    pub processes: Map<u32, ProcessView>,
    pub top_level: Set<u32>,
    pub threads: Map<u32, Seq<u32>>,
}

/// The processes of the first `n` entries; a later entry stands for an earlier
/// one with the same number.
spec fn process_map(v: Seq<KnownProcess>, n: nat) -> Map<u32, ProcessView>
    decreases n,
{
    if n == 0 {
        Map::empty()
    } else {
        process_map(v, (n - 1) as nat).insert(v[n - 1].pid, v[n - 1].info@)
    }
}

/// The threads of the first `n` entries.
spec fn thread_map(v: Seq<KnownThreads>, n: nat) -> Map<u32, Seq<u32>>
    decreases n,
{
    if n == 0 {
        Map::empty()
    } else {
        thread_map(v, (n - 1) as nat).insert(v[n - 1].pid, v[n - 1].threads@)
    }
}

proof fn process_prefix(a: Seq<KnownProcess>, b: Seq<KnownProcess>, n: nat)
    requires
        n <= a.len(),
        n <= b.len(),
        forall|i: int| 0 <= i < n ==> a[i] == b[i],
    ensures
        process_map(a, n) == process_map(b, n),
    decreases n,
{
    if n > 0 {
        process_prefix(a, b, (n - 1) as nat);
    }
}

proof fn thread_prefix(a: Seq<KnownThreads>, b: Seq<KnownThreads>, n: nat)
    requires
        n <= a.len(),
        n <= b.len(),
        forall|i: int| 0 <= i < n ==> a[i] == b[i],
    ensures
        thread_map(a, n) == thread_map(b, n),
    decreases n,
{
    if n > 0 {
        thread_prefix(a, b, (n - 1) as nat);
    }
}

/// The processes after the first `n` threads were made known.
pub open spec fn with_threads(m: Map<u32, ProcessView>, v: Seq<ProcessInfo>, n: nat) -> Map<
    u32,
    ProcessView,
>
    decreases n,
{
    if n == 0 {
        m
    } else {
        with_threads(m, v, (n - 1) as nat).insert(v[n - 1].identity.pid, v[n - 1]@)
    }
}

impl View for FakeProc {
    type V = FakeProcView;

    closed spec fn view(&self) -> FakeProcView {
        FakeProcView {
            cpu_times: self.cpu_times,
            processes: process_map(self.processes@, self.processes@.len()),
            top_level: self.top_level@,
            threads: thread_map(self.threads@, self.threads@.len()),
        }
    }
}

impl Default for FakeProc {
    fn default() -> (f: Self)
        ensures
            f@ == (FakeProcView {
                cpu_times: None,
                processes: Map::empty(),
                top_level: Set::empty(),
                threads: Map::empty(),
            }),
    {
        FakeProc {
            cpu_times: None,
            processes: Vec::new(),
            top_level: CpuIds::new(),
            threads: Vec::new(),
        }
    }
}

/// A copy of a snapshot.
fn copy_snapshot(s: &CpuTimeSnapshot) -> (out: CpuTimeSnapshot)
    ensures
        out.observed_at == s.observed_at,
        out.aggregate == s.aggregate,
        out.cpus@ == s.cpus@,
{
    let mut cpus: Vec<CpuCounters> = Vec::new();
    let mut i: usize = 0;
    while i < s.cpus.len()
        invariant
            i <= s.cpus@.len(),
            cpus@ == s.cpus@.take(i as int),
        decreases s.cpus@.len() - i,
    {
        cpus.push(s.cpus[i]);
        i = i + 1;
        assert(cpus@ =~= s.cpus@.take(i as int));
    }
    assert(cpus@ =~= s.cpus@);
    CpuTimeSnapshot { observed_at: s.observed_at, aggregate: s.aggregate, cpus }
}

impl FakeProc {
    /// Sets the CPU counters.
    pub fn set_cpu_times(&mut self, snapshot: CpuTimeSnapshot)
        ensures
            final(self)@ == (FakeProcView { cpu_times: Some(snapshot), ..old(self)@ }),
    {
        self.cpu_times = Some(snapshot);
    }

    /// Makes a process known.
    fn learn(&mut self, info: ProcessInfo)
        ensures
            final(self)@ == (FakeProcView {
                processes: old(self)@.processes.insert(info.identity.pid, info@),
                ..old(self)@
            }),
    {
        let ghost before = self.processes@;
        let pid: u32 = info.identity.pid;
        self.processes.push(KnownProcess { pid, info });
        proof {
            process_prefix(before, self.processes@, before.len());
        }
    }

    /// Adds a process.
    pub fn insert_process(&mut self, process: ProcessInfo)
        ensures
            final(self)@ == (FakeProcView {
                processes: old(self)@.processes.insert(process.identity.pid, process@),
                top_level: old(self)@.top_level.insert(process.identity.pid),
                ..old(self)@
            }),
    {
        self.top_level.insert(process.identity.pid);
        self.learn(process);
    }

    /// Sets the threads of a process and makes them known.
    pub fn set_threads(&mut self, process: u32, threads: Vec<ProcessInfo>)
        ensures
            final(self)@ == (FakeProcView {
                processes: with_threads(old(self)@.processes, threads@, threads@.len()),
                threads: old(self)@.threads.insert(
                    process,
                    Seq::new(threads@.len(), |i: int| threads@[i].identity.pid),
                ),
                ..old(self)@
            }),
    {
        let ghost start = self@;
        let mut ids: Vec<u32> = Vec::new();
        let mut i: usize = 0;
        while i < threads.len()
            invariant
                i <= threads@.len(),
                ids@ == Seq::new(i as nat, |k: int| threads@[k].identity.pid),
                self@ == (FakeProcView {
                    processes: with_threads(start.processes, threads@, i as nat),
                    ..start
                }),
            decreases threads@.len() - i,
        {
            ids.push(threads[i].identity.pid);
            let copy = threads[i].duplicate();
            assert(copy@.identity == threads@[i as int]@.identity);
            self.learn(copy);
            i = i + 1;
            assert(ids@ =~= Seq::new(i as nat, |k: int| threads@[k].identity.pid));
        }
        let ghost before = self.threads@;
        self.threads.push(KnownThreads { pid: process, threads: ids });
        proof {
            thread_prefix(before, self.threads@, before.len());
        }
    }

    /// Removes a process with its threads.
    pub fn remove_process(&mut self, pid: u32)
        ensures
            final(self)@ == (FakeProcView {
                processes: old(self)@.processes.remove(pid),
                top_level: old(self)@.top_level.remove(pid),
                threads: old(self)@.threads.remove(pid),
                ..old(self)@
            }),
    {
        let ghost start = self@;
        let mut i: usize = 0;
        let mut kept: Vec<KnownProcess> = Vec::new();
        let mut all: Vec<KnownProcess> = Vec::new();
        std::mem::swap(&mut all, &mut self.processes);
        let ghost given = all@;
        assert(all@ =~= given.skip(0));
        assert(process_map(kept@, 0) =~= process_map(given, 0).remove(pid));
        let mut n: Ghost<nat> = Ghost(0nat);
        while all.len() > 0
            invariant
                n@ <= given.len(),
                all@ == given.skip(n@ as int),
                process_map(kept@, kept@.len()) == process_map(given, n@).remove(pid),
            decreases all@.len(),
        {
            let p = all.remove(0);
            assert(p == given[n@ as int]);
            if p.pid != pid {
                let ghost before = kept@;
                kept.push(p);
                proof {
                    process_prefix(before, kept@, before.len());
                    assert(process_map(kept@, kept@.len()) =~= process_map(given, n@ + 1).remove(
                        pid,
                    ));
                }
            } else {
                assert(process_map(given, n@ + 1).remove(pid) =~= process_map(given, n@).remove(
                    pid,
                ));
            }
            n = Ghost(n@ + 1);
            assert(all@ =~= given.skip(n@ as int));
        }
        self.processes = kept;
        let mut held: Vec<KnownThreads> = Vec::new();
        let mut rest: Vec<KnownThreads> = Vec::new();
        std::mem::swap(&mut rest, &mut self.threads);
        let ghost listed = rest@;
        assert(rest@ =~= listed.skip(0));
        assert(thread_map(held@, 0) =~= thread_map(listed, 0).remove(pid));
        let mut m: Ghost<nat> = Ghost(0nat);
        while rest.len() > 0
            invariant
                m@ <= listed.len(),
                rest@ == listed.skip(m@ as int),
                thread_map(held@, held@.len()) == thread_map(listed, m@).remove(pid),
            decreases rest@.len(),
        {
            let t = rest.remove(0);
            assert(t == listed[m@ as int]);
            if t.pid != pid {
                let ghost before = held@;
                held.push(t);
                proof {
                    thread_prefix(before, held@, before.len());
                    assert(thread_map(held@, held@.len()) =~= thread_map(listed, m@ + 1).remove(
                        pid,
                    ));
                }
            } else {
                assert(thread_map(listed, m@ + 1).remove(pid) =~= thread_map(listed, m@).remove(
                    pid,
                ));
            }
            m = Ghost(m@ + 1);
            assert(rest@ =~= listed.skip(m@ as int));
        }
        self.threads = held;
        let ids = self.top_level.to_vec();
        let mut top = CpuIds::new();
        let ghost wanted = self.top_level@;
        assert(ids@.take(0).to_set().remove(pid) =~= Set::empty());
        while i < ids.len()
            invariant
                i <= ids@.len(),
                top@ == ids@.take(i as int).to_set().remove(pid),
            decreases ids@.len() - i,
        {
            if ids[i] != pid {
                top.insert(ids[i]);
            }
            proof {
                let t = ids@.take(i as int);
                let u = ids@.take(i + 1);
                assert(u =~= t.push(ids@[i as int]));
                assert forall|x: u32| u.to_set().contains(x) <==> (t.to_set().contains(x) || x
                    == ids@[i as int]) by {
                    if t.contains(x) {
                        let k = choose|k: int| 0 <= k < t.len() && t[k] == x;
                        assert(u[k] == x);
                    }
                    assert(u[i as int] == ids@[i as int]);
                }
                assert(top@ =~= u.to_set().remove(pid));
            }
            i = i + 1;
        }
        assert(ids@.take(ids@.len() as int) =~= ids@);
        self.top_level = top;
    }

    /// The CPU counters.
    pub fn cpu_sample(&self) -> (r: PlatformResult<CpuTimeSnapshot>)
        ensures
            match self@.cpu_times {
                Some(s) => r is Ok && r->Ok_0.observed_at == s.observed_at && r->Ok_0.aggregate
                    == s.aggregate && r->Ok_0.cpus@ == s.cpus@,
                None => r is Err && r->Err_0@ == malformed(
                    "/proc/stat"@,
                    "fake CPU sample not configured"@,
                ),
            },
    {
        match &self.cpu_times {
            Some(s) => Ok(copy_snapshot(s)),
            None => Err(PlatformError::invalid("/proc/stat", "fake CPU sample not configured")),
        }
    }

    /// The processes that were added, threads left out.
    pub fn leaders(&self) -> (out: Vec<u32>)
        ensures
            crate::cpuset::ids_ascending(out@),
            out@.to_set() == self@.top_level,
    {
        self.top_level.to_vec()
    }

    /// The threads of a process: itself, where none were set.
    pub fn threads_of(&self, process: u32) -> (out: Vec<u32>)
        ensures
            out@ == (if self@.threads.dom().contains(process) {
                self@.threads[process]
            } else {
                seq![process]
            }),
    {
        let mut n: usize = self.threads.len();
        let ghost v = self.threads@;
        while n > 0
            invariant
                n <= self.threads@.len(),
                v == self.threads@,
                thread_map(v, v.len()).dom().contains(process) <==> thread_map(
                    v,
                    n as nat,
                ).dom().contains(process),
                thread_map(v, v.len()).dom().contains(process) ==> thread_map(v, v.len())[process]
                    == thread_map(v, n as nat)[process],
            decreases n,
        {
            if self.threads[n - 1].pid == process {
                let ids = &self.threads[n - 1].threads;
                let mut out: Vec<u32> = Vec::new();
                let mut i: usize = 0;
                while i < ids.len()
                    invariant
                        i <= ids@.len(),
                        out@ == ids@.take(i as int),
                    decreases ids@.len() - i,
                {
                    out.push(ids[i]);
                    i = i + 1;
                    assert(out@ =~= ids@.take(i as int));
                }
                assert(out@ =~= ids@);
                return out;
            }
            n = n - 1;
        }
        let mut out: Vec<u32> = Vec::new();
        out.push(process);
        assert(out@ =~= seq![process]);
        out
    }

    /// What is known of a process.
    pub fn identify(&self, pid: u32) -> (r: PlatformResult<ProcessInfo>)
        ensures
            match r {
                Ok(p) => self@.processes.dom().contains(pid) && p@ == self@.processes[pid],
                Err(e) => {
                    &&& !self@.processes.dom().contains(pid)
                    &&& e@ == PlatformErrorView::Disappeared(
                        "fake process "@ + decimal_text(pid as nat),
                    )
                },
            },
    {
        let mut n: usize = self.processes.len();
        let ghost v = self.processes@;
        while n > 0
            invariant
                n <= self.processes@.len(),
                v == self.processes@,
                process_map(v, v.len()).dom().contains(pid) <==> process_map(
                    v,
                    n as nat,
                ).dom().contains(pid),
                process_map(v, v.len()).dom().contains(pid) ==> process_map(v, v.len())[pid]
                    == process_map(v, n as nat)[pid],
            decreases n,
        {
            if self.processes[n - 1].pid == pid {
                return Ok(self.processes[n - 1].info.duplicate());
            }
            n = n - 1;
        }
        let number = format_u64(pid as u64);
        Err(PlatformError::Disappeared(cat2("fake process ", number.as_str())))
    }
}

impl ProcReader for FakeProc {
    fn cpu_times(&self) -> (r: PlatformResult<CpuTimeSnapshot>)
        ensures
            match self@.cpu_times {
                Some(s) => r is Ok && r->Ok_0.observed_at == s.observed_at && r->Ok_0.aggregate
                    == s.aggregate && r->Ok_0.cpus@ == s.cpus@,
                None => r is Err && r->Err_0@ == malformed(
                    "/proc/stat"@,
                    "fake CPU sample not configured"@,
                ),
            },
    {
        self.cpu_sample()
    }

    fn list_processes(&self) -> (r: PlatformResult<Vec<u32>>)
        ensures
            r is Ok,
            crate::cpuset::ids_ascending(r->Ok_0@),
            r->Ok_0@.to_set() == self@.top_level,
    {
        Ok(self.leaders())
    }

    fn list_threads(&self, process: u32) -> (r: PlatformResult<Vec<u32>>)
        ensures
            r is Ok,
            r->Ok_0@ == (if self@.threads.dom().contains(process) {
                self@.threads[process]
            } else {
                seq![process]
            }),
    {
        Ok(self.threads_of(process))
    }

    fn process_identity(&self, pid: u32) -> (r: PlatformResult<ProcessInfo>)
        ensures
            match r {
                Ok(p) => self@.processes.dom().contains(pid) && p@ == self@.processes[pid],
                Err(e) => {
                    &&& !self@.processes.dom().contains(pid)
                    &&& e@ == PlatformErrorView::Disappeared(
                        "fake process "@ + decimal_text(pid as nat),
                    )
                },
            },
    {
        self.identify(pid)
    }
}

/// A platform with a fake clock and fake processes.
#[derive(Debug)]
pub struct FakeRuntime {
    clock: FakeClock,
    procfs: FakeProc,
    online_cpus: CpuIds,
}

impl FakeRuntime {
    /// The processes of the platform.
    pub closed spec fn processes(&self) -> FakeProcView {
        self.procfs@
    }

    /// The CPUs that are online.
    pub closed spec fn online(&self) -> Set<u32> {
        self.online_cpus@
    }

    /// The clock of the platform.
    pub closed spec fn timer(&self) -> FakeClock {
        self.clock
    }

    /// A platform with a clock, processes and online CPUs.
    pub fn new(clock: FakeClock, procfs: FakeProc, online_cpus: CpuIds) -> (r: Self)
        ensures
            r.timer() == clock,
            r.processes() == procfs@,
            r.online() == online_cpus@,
    {
        FakeRuntime { clock, procfs, online_cpus }
    }

    /// The clock of the platform.
    pub fn clock(&self) -> (r: &FakeClock)
        ensures
            *r == self.timer(),
    {
        &self.clock
    }

    /// The processes of the platform.
    pub fn procfs(&self) -> (r: &FakeProc)
        ensures
            r@ == self.processes(),
    {
        &self.procfs
    }

    /// Sets the CPUs that are online.
    pub fn set_online_cpus(&mut self, online_cpus: CpuIds)
        ensures
            final(self).online() == online_cpus@,
            final(self).processes() == old(self).processes(),
            final(self).timer() == old(self).timer(),
    {
        self.online_cpus = online_cpus;
    }

    /// The CPUs that are online.
    pub fn online_set(&self) -> (r: CpuIds)
        ensures
            r@ == self.online(),
    {
        self.online_cpus.duplicate()
    }
}

impl Clock for FakeRuntime {
    fn monotonic_millis(&self) -> (r: u64)
        ensures
            call_ensures(FakeClock::monotonic_millis, (&self.timer(),), r),
    {
        self.clock.monotonic_millis()
    }
}

impl ProcReader for FakeRuntime {
    fn cpu_times(&self) -> (r: PlatformResult<CpuTimeSnapshot>)
        ensures
            match self.processes().cpu_times {
                Some(s) => r is Ok && r->Ok_0.observed_at == s.observed_at && r->Ok_0.aggregate
                    == s.aggregate && r->Ok_0.cpus@ == s.cpus@,
                None => r is Err && r->Err_0@ == malformed(
                    "/proc/stat"@,
                    "fake CPU sample not configured"@,
                ),
            },
    {
        self.procfs.cpu_sample()
    }

    fn list_processes(&self) -> (r: PlatformResult<Vec<u32>>)
        ensures
            r is Ok,
            crate::cpuset::ids_ascending(r->Ok_0@),
            r->Ok_0@.to_set() == self.processes().top_level,
    {
        Ok(self.procfs.leaders())
    }

    fn list_threads(&self, process: u32) -> (r: PlatformResult<Vec<u32>>)
        ensures
            r is Ok,
            r->Ok_0@ == (if self.processes().threads.dom().contains(process) {
                self.processes().threads[process]
            } else {
                seq![process]
            }),
    {
        Ok(self.procfs.threads_of(process))
    }

    fn process_identity(&self, pid: u32) -> (r: PlatformResult<ProcessInfo>)
        ensures
            match r {
                Ok(p) => self.processes().processes.dom().contains(pid) && p@ == self.processes().processes[pid],
                Err(e) => {
                    &&& !self.processes().processes.dom().contains(pid)
                    &&& e@ == PlatformErrorView::Disappeared(
                        "fake process "@ + decimal_text(pid as nat),
                    )
                },
            },
    {
        self.procfs.identify(pid)
    }
}

impl OnlineCpuSource for FakeRuntime {
    fn online_cpus(&self) -> (r: PlatformResult<CpuIds>)
        ensures
            r is Ok,
            r->Ok_0@ == self.online(),
    {
        Ok(self.online_set())
    }
}

} // verus!
