//! Load and frequency observations, observer health, and the periodic tick.

use vstd::prelude::*;
use crate::model::{IssueView, Scene, ThermalState};
use crate::platform::{CpuCounters, CpuTimeSnapshot, CpuTimes, LoadRatio};
use crate::table::{prefixed, Table};
use crate::text::{cat2, has_prefix};
use super::hints::{unexpired, Hint};
use super::inputs::{with_hint, without_hint};
use super::overrides::{drop_expired, live_windows};
use super::state::{
    evaluate, next, since, Action, ActionView, Counters, CpuLoadSample, Gates, Model,
    ObservedFrequency, ObservedView, RuntimeActor, SelectionView, SnapshotView,
};
use super::thermal::{outcome_view, verdict_taken};
use super::timing::{frequency_sample_is_stale, stale_sample};
use super::workload::check_started;

verus! {

/// How often the workload and the tasks are looked at.
pub const WORKLOAD_CHECK_INTERVAL_MS: u64 = 1_000;

/// What the heavy-load detector makes of a load.
#[derive(Debug)]
pub enum HeavyLoad {
    Heavy,
    Idle,
    /// It could not judge.
    Failed(String),
}

/// The view of [`HeavyLoad`].
pub enum HeavyView {
    Heavy,
    Idle,
    Failed(Seq<char>),
}

impl View for HeavyLoad {
    type V = HeavyView;

    open spec fn view(&self) -> HeavyView {
        match self {
            HeavyLoad::Heavy => HeavyView::Heavy,
            HeavyLoad::Idle => HeavyView::Idle,
            HeavyLoad::Failed(e) => HeavyView::Failed(e@),
        }
    }
}

/// The load over an interval, as the heavy-load detector judges it.
#[derive(Clone, Copy, Debug, PartialEq, Eq, Structural)]
pub struct LoadWindow {
    pub load: LoadRatio,
    pub elapsed_ms: u64,
    pub observed_at: u64,
}

/// The counters of a CPU, from position `k` on.
pub open spec fn times_of(cpus: Seq<CpuCounters>, cpu: u32, k: int) -> Option<CpuTimes>
    decreases cpus.len() - k,
{
    if k < 0 || k >= cpus.len() {
        None
    } else if cpus[k].cpu == cpu {
        Some(cpus[k].times)
    } else {
        times_of(cpus, cpu, k + 1)
    }
}

/// The load of one CPU since an earlier snapshot.
pub open spec fn cpu_load(counters: CpuCounters, previous: Seq<CpuCounters>) -> Option<
    CpuLoadSample,
> {
    match times_of(previous, counters.cpu, 0) {
        Some(before) => match counters.times.load_since(before) {
            Some(load) => Some(CpuLoadSample { cpu: counters.cpu, load }),
            None => None,
        },
        None => None,
    }
}

/// The loads of the CPUs that are in both snapshots and moved on, in order.
pub open spec fn cpu_loads(current: Seq<CpuCounters>, previous: Seq<CpuCounters>) -> Seq<
    CpuLoadSample,
>
    decreases current.len(),
{
    if current.len() == 0 {
        Seq::empty()
    } else {
        let before = cpu_loads(current.drop_last(), previous);
        match cpu_load(current.last(), previous) {
            Some(s) => before.push(s),
            None => before,
        }
    }
}

/// What the heavy-load detector has to judge, if anything.
pub open spec fn load_window(m: Model, sample: SnapshotView) -> Option<LoadWindow> {
    match m.observed.previous_cpu_times {
        Some(previous) if m.configuration.policy.load_enabled => match sample.aggregate.load_since(
            previous.aggregate,
        ) {
            Some(load) => Some(
                LoadWindow {
                    load,
                    elapsed_ms: since(sample.observed_at, previous.observed_at),
                    observed_at: sample.observed_at,
                },
            ),
            None => None,
        },
        _ => None,
    }
}

/// The state one telemetry step on.
pub open spec fn telemetry_moved(m: Model) -> Model {
    Model {
        counters: Counters {
            telemetry_sequence: next(m.counters.telemetry_sequence),
            ..m.counters
        },
        ..m
    }
}

/// The state without any knowledge of the load.
pub open spec fn load_invalid(m: Model) -> Model {
    telemetry_moved(
        without_hint(
            Model {
                observed: ObservedView {
                    cpu_loads: Seq::empty(),
                    previous_cpu_times: None,
                    ..m.observed
                },
                ..m
            }.asks(ActionView::ResetLoadDetector),
            Scene::Boost,
        ),
    )
}

/// The state after the heavy-load detector judged.
pub open spec fn load_judged(m: Model, heavy: HeavyView) -> Model {
    let counted = m.without_issue("observer.load_counters"@);
    match heavy {
        HeavyView::Heavy => with_hint(counted, Scene::Boost, None),
        HeavyView::Idle => without_hint(counted, Scene::Boost),
        HeavyView::Failed(e) => counted.with_issue(
            "policy.heavy_load"@,
            "error"@,
            "policy"@,
            e,
        ),
    }
}

/// The state with a first or further snapshot taken over.
pub open spec fn snapshot_taken(m: Model, sample: SnapshotView) -> Model {
    Model {
        observed: ObservedView {
            last_load_success: Some(sample.observed_at),
            previous_cpu_times: Some(sample),
            timestamp: sample.observed_at,
            ..m.observed
        },
        ..m
    }.without_issue("observer.load"@).without_issue("observer.load_stale"@)
}

/// The state with the load since an earlier snapshot judged.
pub open spec fn load_compared(
    m: Model,
    sample: SnapshotView,
    previous: SnapshotView,
    heavy: HeavyView,
) -> Model {
    let loaded = Model {
        observed: ObservedView {
            cpu_loads: cpu_loads(sample.cpus, previous.cpus),
            ..m.observed
        },
        ..m
    };
    let judged = if !m.configuration.policy.load_enabled {
        without_hint(loaded, Scene::Boost).asks(ActionView::ResetLoadDetector)
    } else if sample.aggregate.load_since(previous.aggregate) is Some {
        load_judged(loaded, heavy)
    } else {
        load_invalid(
            loaded.with_issue(
                "observer.load_counters"@,
                "warning"@,
                "load"@,
                "aggregate CPU counters moved backwards or had no elapsed time"@,
            ),
        )
    };
    telemetry_moved(judged).asks(evaluate())
}

/// The state after a load observation. `heavy` is what the heavy-load detector
/// makes of the load window.
pub open spec fn load_reduced(
    m: Model,
    observation: Result<SnapshotView, Seq<char>>,
    heavy: HeavyView,
) -> Model {
    match observation {
        Err(message) => load_invalid(
            m.with_issue("observer.load"@, "error"@, "load"@, message),
        ).asks(evaluate()),
        Ok(sample) => {
            let taken = snapshot_taken(m, sample);
            match m.observed.previous_cpu_times {
                None => taken,
                Some(previous) => load_compared(taken, sample, previous, heavy),
            }
        },
    }
}

/// What the frequency observer read.
#[derive(Debug)]
pub struct FrequencyObservationBatch {
    pub readings: Table<ObservedFrequency>,
    /// Why a target could not be read.
    pub errors: Table<String>,
}

/// The view of [`FrequencyObservationBatch`].
pub struct BatchView {
    pub readings: Map<Seq<char>, ObservedFrequency>,
    pub errors: Map<Seq<char>, Seq<char>>,
}

impl View for FrequencyObservationBatch {
    type V = BatchView;

    open spec fn view(&self) -> BatchView {
        BatchView { readings: self.readings@, errors: self.errors@ }
    }
}

/// The findings with those about single targets replaced.
pub open spec fn target_findings(
    issues: Map<Seq<char>, IssueView>,
    errors: Map<Seq<char>, Seq<char>>,
) -> Map<Seq<char>, IssueView> {
    let p = "observer.frequency."@;
    Map::new(
        |c: Seq<char>|
            if has_prefix(c, p) {
                errors.dom().contains(c.skip(p.len() as int))
            } else {
                issues.dom().contains(c)
            },
        |c: Seq<char>|
            if has_prefix(c, p) {
                IssueView {
                    code: c,
                    severity: "error"@,
                    component: "frequency"@,
                    message: errors[c.skip(p.len() as int)],
                }
            } else {
                issues[c]
            },
    )
}

/// The state after a frequency observation.
pub open spec fn frequencies_reduced(
    m: Model,
    observation: Result<BatchView, Seq<char>>,
    now: u64,
) -> Model {
    let noted = match observation {
        Ok(batch) => Model {
            issues: target_findings(m.issues, batch.errors),
            observed: ObservedView {
                frequencies: batch.readings,
                last_frequency_success: if batch.readings == Map::<
                    Seq<char>,
                    ObservedFrequency,
                >::empty() {
                    m.observed.last_frequency_success
                } else {
                    Some(now)
                },
                ..m.observed
            },
            ..m
        },
        Err(message) => Model {
            issues: m.issues.remove_keys(prefixed("observer.frequency."@)),
            observed: ObservedView { frequencies: Map::empty(), ..m.observed },
            ..m
        }.with_issue("observer.frequency.worker"@, "error"@, "frequency"@, message),
    };
    telemetry_moved(noted).asks(evaluate())
}

/// The state after the observer of sleep announcements reported its health.
pub open spec fn logind_noted(m: Model, observation: Result<(), Seq<char>>) -> Model {
    match observation {
        Ok(()) => m.without_issue("observer.logind"@),
        Err(e) => m.with_issue("observer.logind"@, "error"@, "logind"@, e),
    }
}

/// The state after the input observer reported its health.
pub open spec fn input_noted(m: Model, observation: Result<(), Seq<char>>) -> Model {
    match observation {
        Ok(()) => m.without_issue("observer.input"@),
        Err(e) => m.with_issue("observer.input"@, "warning"@, "input"@, e),
    }
}

/// The age from which a load is stale: five sample intervals, and a second at
/// least.
pub open spec fn load_stale_after(interval: u64) -> int {
    let five = if interval * 5 > u64::MAX {
        u64::MAX as int
    } else {
        interval * 5
    };
    if five < 1_000 {
        1_000
    } else {
        five
    }
}

/// Whether the load is too old, or comes from the future.
pub open spec fn load_stale(m: Model, now: u64) -> bool {
    match m.observed.last_load_success {
        None => false,
        Some(last) => last > now || now - last > load_stale_after(
            m.configuration.policy.load_sample_interval_ms,
        ),
    }
}

/// Whether something is still made of a load that is stale.
pub open spec fn load_in_use(m: Model, now: u64) -> bool {
    m.observed.cpu_loads.len() > 0 || unexpired(m.observed.hints, now).dom().contains(Scene::Boost)
}

/// The state after the age of the load was looked at.
pub open spec fn load_aged(m: Model, now: u64) -> Model {
    if !load_stale(m, now) {
        m
    } else {
        let noted = m.with_issue(
            "observer.load_stale"@,
            "warning"@,
            "load"@,
            "CPU load telemetry is stale; demand and persistent boost were cleared"@,
        );
        if load_in_use(m, now) {
            load_invalid(noted)
        } else {
            noted
        }
    }
}

/// Whether the frequency observations are too old. Without targets there are
/// none to be made.
pub open spec fn frequencies_stale(m: Model, now: u64) -> bool {
    m.configuration.targets != Map::<Seq<char>, super::config::TargetModel>::empty()
        && stale_sample(m.observed.last_frequency_success, now)
}

/// The state after the age of the frequency observations was looked at.
pub open spec fn frequencies_aged(m: Model, now: u64) -> Model {
    if frequencies_stale(m, now) {
        m.with_issue(
            "observer.frequency.stale"@,
            "warning"@,
            "frequency"@,
            "frequency limit telemetry is stale; reported observations may no longer match the kernel"@,
        )
    } else {
        m.without_issue("observer.frequency.stale"@)
    }
}

/// The state with only the hints that still hold.
pub open spec fn hints_aged(m: Model, now: u64) -> Model {
    Model {
        observed: ObservedView { hints: unexpired(m.observed.hints, now), ..m.observed },
        ..m
    }
}

/// The state with only the manual windows that still hold.
pub open spec fn windows_aged(m: Model, now: u64) -> Model {
    let live = live_windows(m.selection.overrides, now);
    if live == m.selection.overrides {
        m
    } else {
        Model {
            selection: SelectionView { overrides: live, ..m.selection },
            counters: Counters { generation: next(m.counters.generation), ..m.counters },
            ..m
        }
    }
}

/// The state after the workload check, if it was due.
pub open spec fn workload_checked(m: Model, now: u64) -> Model {
    if since(now, m.counters.last_workload_check) >= WORKLOAD_CHECK_INTERVAL_MS {
        check_started(Model { counters: Counters { last_workload_check: now, ..m.counters }, ..m })
    } else {
        m
    }
}

/// The state after the task scan, if it was due.
pub open spec fn tasks_scanned(m: Model, now: u64) -> Model {
    if m.selection.workload is Some && m.configuration.policy.scheduler_enabled && since(
        now,
        m.counters.last_scheduler_scan,
    ) >= WORKLOAD_CHECK_INTERVAL_MS {
        Model {
            counters: Counters { last_scheduler_scan: now, ..m.counters },
            gates: Gates { scheduler_dirty: true, ..m.gates },
            ..m
        }
    } else {
        m
    }
}

/// Whether work is due besides what the tick itself changed.
pub open spec fn work_due(m: Model, now: u64) -> bool {
    ||| m.plans.desired is None
    ||| m.gates.scheduler_dirty && !m.gates.suspended
    ||| m.retry.frequency_failures != 0 && now >= m.retry.frequency_not_before
    ||| m.retry.scheduler_failures != 0 && now >= m.retry.scheduler_not_before
}

/// The stages of a tick before the periodic checks.
pub struct TickStages {
    pub judged: Model,
    pub loaded: Model,
    pub framed: Model,
    pub hinted: Model,
    pub windowed: Model,
}

/// The stages of a tick before the periodic checks: verdict, load, frequencies,
/// hints and manual windows.
pub open spec fn tick_stages(m: Model, verdict: ThermalState, now: u64) -> TickStages {
    let judged = verdict_taken(m, verdict);
    let loaded = load_aged(judged, now);
    let framed = frequencies_aged(loaded, now);
    let hinted = hints_aged(framed, now);
    let windowed = windows_aged(hinted, now);
    TickStages { judged, loaded, framed, hinted, windowed }
}

/// Whether a tick changed what policy looks at.
pub open spec fn tick_changed(
    m: Model,
    reading_changed: bool,
    verdict: ThermalState,
    now: u64,
) -> bool {
    let s = tick_stages(m, verdict, now);
    ||| reading_changed
    ||| verdict != m.caps.thermal_state
    ||| load_stale(s.judged, now) && load_in_use(s.judged, now)
    ||| s.hinted.observed.hints != s.framed.observed.hints
    ||| s.windowed.selection.overrides != s.hinted.selection.overrides
}

/// The state after a tick. `reading_changed` says whether a thermal reading
/// turned stale, and `verdict` is what the thermal guards make of the readings.
pub open spec fn ticked(
    m: Model,
    reading_changed: bool,
    verdict: ThermalState,
    now: u64,
) -> Model {
    let s = tick_stages(m, verdict, now);
    let checked = tasks_scanned(workload_checked(s.windowed, now), now);
    if tick_changed(m, reading_changed, verdict, now) || work_due(checked, now) {
        checked.asks(evaluate())
    } else {
        checked
    }
}

/// The counters of a CPU.
fn find_times(cpus: &Vec<CpuCounters>, cpu: u32) -> (r: Option<CpuTimes>)
    ensures
        r == times_of(cpus@, cpu, 0),
{
    let mut k: usize = 0;
    while k < cpus.len()
        invariant
            k <= cpus@.len(),
            times_of(cpus@, cpu, 0) == times_of(cpus@, cpu, k as int),
        decreases cpus@.len() - k,
    {
        if cpus[k].cpu == cpu {
            return Some(cpus[k].times);
        }
        k = k + 1;
    }
    None
}

/// The loads of the CPUs that are in both snapshots and moved on.
fn loads_between(current: &Vec<CpuCounters>, previous: &Vec<CpuCounters>) -> (out: Vec<
    CpuLoadSample,
>)
    ensures
        out@ == cpu_loads(current@, previous@),
{
    let mut out: Vec<CpuLoadSample> = Vec::new();
    let mut i: usize = 0;
    assert(current@.take(0) =~= Seq::empty());
    while i < current.len()
        invariant
            i <= current@.len(),
            out@ == cpu_loads(current@.take(i as int), previous@),
        decreases current@.len() - i,
    {
        assert(current@.take(i + 1).drop_last() =~= current@.take(i as int));
        assert(current@.take(i + 1).last() == current@[i as int]);
        let c = current[i];
        match find_times(previous, c.cpu) {
            Some(before) => match c.times.utilization_since(before) {
                Some(load) => {
                    out.push(CpuLoadSample { cpu: c.cpu, load });
                },
                None => {},
            },
            None => {},
        }
        i = i + 1;
    }
    assert(current@.take(i as int) =~= current@);
    out
}

/// The code of a finding about one target begins with the common prefix, and
/// what follows is the target.
proof fn target_code(id: Seq<char>)
    ensures
        has_prefix("observer.frequency."@ + id, "observer.frequency."@),
        ("observer.frequency."@ + id).skip("observer.frequency."@.len() as int) == id,
{
    let p = "observer.frequency."@;
    assert((p + id).take(p.len() as int) =~= p);
    assert((p + id).skip(p.len() as int) =~= id);
}

impl RuntimeActor {
    /// What the heavy-load detector has to judge, if anything.
    pub fn load_window(&self, sample: &CpuTimeSnapshot) -> (r: Option<LoadWindow>)
        ensures
            r == load_window(self@, sample@),
    {
        if !self.configuration.policy.load_enabled {
            return None;
        }
        match &self.observed.previous_cpu_times {
            None => None,
            Some(previous) => match sample.aggregate.utilization_since(previous.aggregate) {
                None => None,
                Some(load) => Some(
                    LoadWindow {
                        load,
                        elapsed_ms: sample.observed_at.saturating_sub(previous.observed_at),
                        observed_at: sample.observed_at,
                    },
                ),
            },
        }
    }

    /// Moves telemetry on.
    fn move_telemetry(&mut self)
        ensures
            final(self)@ == telemetry_moved(old(self)@),
    {
        self.counters.telemetry_sequence = self.counters.telemetry_sequence.saturating_add(1);
    }

    /// Forgets what is known of the load.
    fn invalidate_load_state(&mut self)
        ensures
            final(self)@ == load_invalid(old(self)@),
    {
        self.observed.cpu_loads = Vec::new();
        self.observed.previous_cpu_times = None;
        self.ask(Action::ResetLoadDetector);
        self.observed.hints.deactivate(Scene::Boost);
        self.move_telemetry();
    }

    /// Takes over the judgement of the heavy-load detector.
    fn take_judgement(&mut self, heavy: &HeavyLoad)
        ensures
            final(self)@ == load_judged(old(self)@, heavy@),
    {
        self.withdraw("observer.load_counters");
        match heavy {
            HeavyLoad::Heavy => {
                self.observed.hints.activate(Hint::persistent(Scene::Boost));
            },
            HeavyLoad::Idle => {
                self.observed.hints.deactivate(Scene::Boost);
            },
            HeavyLoad::Failed(e) => {
                self.report("policy.heavy_load", "error", "policy", e.as_str());
            },
        }
    }

    /// Judges the load since an earlier snapshot.
    fn compare_load(
        &mut self,
        loads: Vec<CpuLoadSample>,
        moved: bool,
        heavy: &HeavyLoad,
        sample: Ghost<SnapshotView>,
        previous: Ghost<SnapshotView>,
    )
        requires
            loads@ == cpu_loads(sample@.cpus, previous@.cpus),
            moved == (sample@.aggregate.load_since(previous@.aggregate) is Some),
        ensures
            final(self)@ == load_compared(old(self)@, sample@, previous@, heavy@),
    {
        self.observed.cpu_loads = loads;
        if !self.configuration.policy.load_enabled {
            self.observed.hints.deactivate(Scene::Boost);
            self.ask(Action::ResetLoadDetector);
        } else if moved {
            self.take_judgement(heavy);
        } else {
            self.report(
                "observer.load_counters",
                "warning",
                "load",
                "aggregate CPU counters moved backwards or had no elapsed time",
            );
            self.invalidate_load_state();
        }
        self.move_telemetry();
        self.ask(Action::Evaluate { then_barriers: false });
    }

    /// Takes a snapshot over and hands the earlier one out.
    fn take_snapshot(&mut self, sample: CpuTimeSnapshot) -> (previous: Option<CpuTimeSnapshot>)
        ensures
            final(self)@ == snapshot_taken(old(self)@, sample@),
            crate::model::opt_view(previous) == old(self)@.observed.previous_cpu_times,
    {
        self.withdraw("observer.load");
        self.withdraw("observer.load_stale");
        self.observed.last_load_success = Some(sample.observed_at);
        self.observed.timestamp = sample.observed_at;
        let mut slot: Option<CpuTimeSnapshot> = Some(sample);
        std::mem::swap(&mut slot, &mut self.observed.previous_cpu_times);
        slot
    }

    /// Takes over a load observation. `heavy` is what the heavy-load detector
    /// makes of the load window, where there is one.
    pub fn reduce_load(&mut self, observation: Result<CpuTimeSnapshot, String>, heavy: &HeavyLoad)
        ensures
            final(self)@ == load_reduced(
                old(self)@,
                match observation {
                    Ok(sample) => Ok(sample@),
                    Err(e) => Err(e@),
                },
                heavy@,
            ),
    {
        match observation {
            Err(message) => {
                self.report("observer.load", "error", "load", message.as_str());
                self.invalidate_load_state();
                self.ask(Action::Evaluate { then_barriers: false });
            },
            Ok(sample) => {
                let ghost view = sample@;
                let aggregate = sample.aggregate;
                let comparison: Option<(Vec<CpuLoadSample>, bool)> = match &self.observed.previous_cpu_times {
                    Some(previous) => Some(
                        (
                            loads_between(&sample.cpus, &previous.cpus),
                            aggregate.utilization_since(previous.aggregate).is_some(),
                        ),
                    ),
                    None => None,
                };
                let previous = self.take_snapshot(sample);
                match comparison {
                    Some((loads, moved)) => {
                        self.compare_load(
                            loads,
                            moved,
                            heavy,
                            Ghost(view),
                            Ghost(crate::model::opt_view(previous)->0),
                        );
                    },
                    None => {},
                }
            },
        }
    }

    /// Replaces the findings about single targets.
    fn replace_target_findings(&mut self, errors: &Table<String>)
        ensures
            final(self)@ == (Model {
                issues: target_findings(old(self)@.issues, errors@),
                ..old(self)@
            }),
    {
        let ghost p = "observer.frequency."@;
        let ghost start = self@.issues;
        self.health_issues.remove_prefixed("observer.frequency.");
        let n: usize = errors.len();
        let mut i: usize = 0;
        while i < n
            invariant
                i <= n,
                n == errors.keys().len(),
                p == "observer.frequency."@,
                self@ == (Model { issues: self@.issues, ..old(self)@ }),
                forall|k: Seq<char>| #[trigger]
                    errors@.dom().contains(k) <==> errors.keys().contains(k),
                forall|c: Seq<char>|
                    !has_prefix(c, p) ==> (#[trigger] self@.issues.dom().contains(c)
                        <==> start.dom().contains(c)),
                forall|c: Seq<char>|
                    !has_prefix(c, p) && #[trigger] self@.issues.dom().contains(c)
                        ==> self@.issues[c] == start[c],
                forall|c: Seq<char>|
                    has_prefix(c, p) && #[trigger] self@.issues.dom().contains(c)
                        ==> errors@.dom().contains(c.skip(p.len() as int)) && self@.issues[c]
                        == target_findings(start, errors@)[c],
                forall|j: int|
                    0 <= j < i ==> self@.issues.dom().contains(p + #[trigger] errors.keys()[j]),
            decreases n - i,
        {
            let id = errors.key_at(i);
            let code = cat2("observer.frequency.", id);
            proof {
                target_code(id@);
            }
            let message = errors.value_at(i).clone();
            self.report(code.as_str(), "error", "frequency", message.as_str());
            i = i + 1;
        }
        proof {
            let want = target_findings(start, errors@);
            assert forall|c: Seq<char>| self@.issues.dom().contains(c) <==> want.dom().contains(c) by {
                if has_prefix(c, p) && want.dom().contains(c) {
                    let id = c.skip(p.len() as int);
                    assert(errors.keys().contains(id));
                    let j = choose|j: int| 0 <= j < errors.keys().len() && errors.keys()[j] == id;
                    assert(c =~= p + id) by {
                        assert(c =~= c.take(p.len() as int) + c.skip(p.len() as int));
                    }
                    assert(self@.issues.dom().contains(p + errors.keys()[j]));
                }
            }
            assert(self@.issues =~= want);
        }
    }

    /// Takes over a frequency observation.
    pub fn reduce_frequencies(
        &mut self,
        observation: Result<FrequencyObservationBatch, String>,
        now: u64,
    )
        ensures
            final(self)@ == frequencies_reduced(
                old(self)@,
                match observation {
                    Ok(batch) => Ok(batch@),
                    Err(e) => Err(e@),
                },
                now,
            ),
    {
        match observation {
            Ok(batch) => {
                let FrequencyObservationBatch { readings, errors } = batch;
                self.replace_target_findings(&errors);
                if !readings.is_empty() {
                    self.observed.last_frequency_success = Some(now);
                }
                self.observed.frequencies = readings;
            },
            Err(message) => {
                self.health_issues.remove_prefixed("observer.frequency.");
                self.observed.frequencies.clear();
                self.report(
                    "observer.frequency.worker",
                    "error",
                    "frequency",
                    message.as_str(),
                );
            },
        }
        self.move_telemetry();
        self.ask(Action::Evaluate { then_barriers: false });
    }

    /// Takes over the health of the observer of sleep announcements.
    pub fn reduce_logind_health(&mut self, observation: &Result<(), String>)
        ensures
            final(self)@ == logind_noted(old(self)@, outcome_view(*observation)),
    {
        match observation {
            Ok(()) => {
                self.withdraw("observer.logind");
            },
            Err(e) => {
                self.report("observer.logind", "error", "logind", e.as_str());
            },
        }
    }

    /// Takes over the health of the input observer.
    pub fn reduce_input_health(&mut self, observation: &Result<(), String>)
        ensures
            final(self)@ == input_noted(old(self)@, outcome_view(*observation)),
    {
        match observation {
            Ok(()) => {
                self.withdraw("observer.input");
            },
            Err(e) => {
                self.report("observer.input", "warning", "input", e.as_str());
            },
        }
    }

    /// Looks at the age of the load, and says whether something was still made
    /// of a stale one.
    fn refresh_load_staleness(&mut self, now: u64) -> (changed: bool)
        ensures
            final(self)@ == load_aged(old(self)@, now),
            changed == (load_stale(old(self)@, now) && load_in_use(old(self)@, now)),
    {
        let last: u64 = match self.observed.last_load_success {
            Some(t) => t,
            None => {
                return false;
            },
        };
        let interval: u64 = self.configuration.policy.load_sample_interval_ms;
        let five: u64 = match interval.checked_mul(5) {
            Some(x) => x,
            None => u64::MAX,
        };
        let limit: u64 = if five < 1_000 {
            1_000
        } else {
            five
        };
        if last <= now && now - last <= limit {
            return false;
        }
        let changed = self.observed.cpu_loads.len() > 0 || self.observed.hints.contains_active(
            Scene::Boost,
            now,
        );
        self.report(
            "observer.load_stale",
            "warning",
            "load",
            "CPU load telemetry is stale; demand and persistent boost were cleared",
        );
        if changed {
            self.invalidate_load_state();
        }
        changed
    }

    /// Whether the frequency observations are too old.
    pub fn frequency_observations_stale(&self, now: u64) -> (r: bool)
        ensures
            r == frequencies_stale(self@, now),
    {
        !self.configuration.targets.is_empty() && frequency_sample_is_stale(
            self.observed.last_frequency_success,
            now,
        )
    }

    /// Looks at the age of the frequency observations.
    fn refresh_frequency_staleness(&mut self, now: u64)
        ensures
            final(self)@ == frequencies_aged(old(self)@, now),
    {
        if self.frequency_observations_stale(now) {
            self.report(
                "observer.frequency.stale",
                "warning",
                "frequency",
                "frequency limit telemetry is stale; reported observations may no longer match the kernel",
            );
        } else {
            self.withdraw("observer.frequency.stale");
        }
    }

    /// Drops the hints that no longer hold.
    fn age_hints(&mut self, now: u64) -> (dropped: bool)
        ensures
            final(self)@ == hints_aged(old(self)@, now),
            dropped == (final(self)@.observed.hints != old(self)@.observed.hints),
    {
        self.observed.hints.expire(now)
    }

    /// Drops the manual windows that no longer hold.
    fn age_windows(&mut self, now: u64) -> (dropped: bool)
        ensures
            final(self)@ == windows_aged(old(self)@, now),
            dropped == (final(self)@.selection.overrides != old(self)@.selection.overrides),
    {
        let dropped = drop_expired(&mut self.selection.overrides, now);
        if dropped {
            self.counters.generation = self.counters.generation.saturating_add(1);
        }
        dropped
    }

    /// Checks the workload, if that is due.
    fn check_workload(&mut self, now: u64)
        ensures
            final(self)@ == workload_checked(old(self)@, now),
    {
        if now.saturating_sub(self.counters.last_workload_check) >= WORKLOAD_CHECK_INTERVAL_MS {
            self.counters.last_workload_check = now;
            self.check_workload_identity();
        }
    }

    /// Has the tasks looked at again, if that is due.
    fn scan_tasks(&mut self, now: u64)
        ensures
            final(self)@ == tasks_scanned(old(self)@, now),
    {
        if self.selection.workload.is_some() && self.configuration.policy.scheduler_enabled
            && now.saturating_sub(self.counters.last_scheduler_scan) >= WORKLOAD_CHECK_INTERVAL_MS {
            self.counters.last_scheduler_scan = now;
            self.gates.scheduler_dirty = true;
        }
    }

    /// Whether work is due.
    fn is_work_due(&self, now: u64) -> (r: bool)
        ensures
            r == work_due(self@, now),
    {
        self.plans.desired.is_none() || self.gates.scheduler_dirty && !self.gates.suspended
            || self.retry.frequency_failures != 0 && now >= self.retry.frequency_not_before
            || self.retry.scheduler_failures != 0 && now >= self.retry.scheduler_not_before
    }

    /// Takes over the passing of time. The readings were aged before, which
    /// gave `reading_changed`, and `verdict` is what the thermal guards make of
    /// them.
    pub fn on_tick(&mut self, reading_changed: bool, verdict: ThermalState, now: u64)
        ensures
            final(self)@ == ticked(old(self)@, reading_changed, verdict, now),
    {
        let thermal_changed = reading_changed || verdict != self.caps.thermal_state;
        self.take_verdict(verdict);
        let ghost judged = self@;
        let load_changed = self.refresh_load_staleness(now);
        self.refresh_frequency_staleness(now);
        let hints_expired = self.age_hints(now);
        let windows_expired = self.age_windows(now);
        let changed = thermal_changed || load_changed || hints_expired || windows_expired;
        proof {
            assert(self@ == tick_stages(old(self)@, verdict, now).windowed);
            assert(changed == tick_changed(old(self)@, reading_changed, verdict, now));
        }
        self.check_workload(now);
        self.scan_tasks(now);
        if changed || self.is_work_due(now) {
            self.ask(Action::Evaluate { then_barriers: false });
        }
    }
}

/// A load that is stale clears demand and boost.
pub proof fn stale_load_clears_boost(m: Model, now: u64)
    requires
        load_stale(m, now),
    ensures
        load_aged(m, now).observed.cpu_loads.len() == 0,
        !unexpired(load_aged(m, now).observed.hints, now).dom().contains(Scene::Boost),
{
}

/// Counters that moved backwards never become a load: the load is forgotten.
pub proof fn regression_is_no_load(
    m: Model,
    sample: SnapshotView,
    previous: SnapshotView,
    heavy: HeavyView,
)
    requires
        m.configuration.policy.load_enabled,
        sample.aggregate.load_since(previous.aggregate) is None,
    ensures
        load_compared(m, sample, previous, heavy).observed.cpu_loads.len() == 0,
        load_compared(m, sample, previous, heavy).observed.previous_cpu_times is None,
        !load_compared(m, sample, previous, heavy).observed.hints.dom().contains(Scene::Boost),
{
}

/// A finding about one target is withdrawn by the next observation unless the
/// target still cannot be read.
pub proof fn target_findings_are_replaced(
    issues: Map<Seq<char>, IssueView>,
    errors: Map<Seq<char>, Seq<char>>,
    id: Seq<char>,
)
    ensures
        target_findings(issues, errors).dom().contains("observer.frequency."@ + id)
            <==> errors.dom().contains(id),
{
    target_code(id);
}

} // verus!
