//! Thermal observations, the caps that follow from them, and the hand-over of
//! the caps to the frequency fence.

use vstd::prelude::*;
use crate::model::{seq_view, SensorHealth, ThermalReading, ThermalState};
use crate::number::{decimal_text, format_opt_u64, format_u64, opt_number_text};
use crate::paths::{path_view, same_path};
use crate::platform::ThermalSample;
use crate::table::Table;
use crate::text::{cat2, cat4};
use super::config::{
    caps_tightened, merge_caps, thermal_cap_map, thermal_caps, tightens, tighter_caps, ThermalZone,
    ZoneView,
};
use super::health::actuator_asked;
use super::retry::frequency_cleared;
use super::state::{
    evaluate, next, since, Action, ActionView, ActuatorReport, CapsView, Counters, Gates, Model,
    ObservedView, ReportView, RuntimeActor, Work, FailuresView,
};

verus! {

/// The view of [`ThermalSample`].
pub struct SampleView {
    pub zone_id: Seq<char>,
    pub zone_type: Seq<char>,
    pub path: Seq<char>,
    pub reading: ThermalReading,
}

impl View for ThermalSample {
    type V = SampleView;

    open spec fn view(&self) -> SampleView {
        SampleView {
            zone_id: self.zone_id@,
            zone_type: self.zone_type@,
            path: self.path@,
            reading: self.reading,
        }
    }
}

/// The state in which a new set of caps is on its way to the fence.
pub open spec fn safety_started(m: Model, caps: Map<Seq<char>, u64>) -> Model {
    let id = next(m.work.next_safety_update_id);
    Model {
        work: Work {
            next_safety_update_id: id,
            safety_update_in_flight: Some(id),
            ..m.work
        },
        ..m
    }.asks(ActionView::StartSafetyUpdate { id, caps })
}

/// The state after new caps were asked for. Caps that are already asked for,
/// and any caps after a failed hand-over, change nothing; while a hand-over is
/// on its way the newest caps wait for it.
pub open spec fn safety_requested(m: Model, caps: Map<Seq<char>, u64>) -> Model {
    if m.failures.safety is Some || caps == m.caps.requested {
        m
    } else if m.work.safety_update_in_flight is Some {
        Model { caps: CapsView { requested: caps, pending: Some(caps), ..m.caps }, ..m }
    } else {
        safety_started(Model { caps: CapsView { requested: caps, ..m.caps }, ..m }, caps)
    }
}

/// The upper caps that follow from a thermal verdict.
pub open spec fn upper_caps(m: Model) -> Map<Seq<char>, u64> {
    tighter_caps(
        m.configuration.administrator_caps,
        thermal_cap_map(m.configuration.targets, m.caps.thermal_state),
    )
}

/// The state with the caps that follow from its thermal verdict. A stricter cap
/// is never held back by an earlier frequency failure.
#[verifier::opaque]
pub open spec fn caps_updated(m: Model) -> Model {
    let thermal = thermal_cap_map(m.configuration.targets, m.caps.thermal_state);
    let asked = safety_requested(
        Model { caps: CapsView { thermal, ..m.caps }, ..m },
        upper_caps(m),
    );
    if tightens(m.caps.thermal, thermal) {
        frequency_cleared(asked)
    } else {
        asked
    }
}

/// The message of a result that nobody waits for.
pub open spec fn unexpected_result(what: Seq<char>, id: u64, expected: Option<u64>) -> Seq<char> {
    what + decimal_text(id as nat) + " while waiting for "@ + opt_number_text(expected)
}

/// The message of a result that nobody waits for.
pub fn unexpected_message(what: &str, id: u64, expected: Option<u64>) -> (out: String)
    ensures
        out@ == unexpected_result(what@, id, expected),
{
    let number = format_u64(id);
    let waiting = format_opt_u64(expected);
    cat4(what, number.as_str(), " while waiting for ", waiting.as_str())
}

/// The view of an outcome without a value.
pub open spec fn outcome_view(r: Result<(), String>) -> Result<(), Seq<char>> {
    match r {
        Ok(()) => Ok(()),
        Err(e) => Err(e@),
    }
}

/// Why a hand-over of caps failed, if it did.
pub open spec fn safety_error(
    expected: Option<u64>,
    id: u64,
    result: Result<(), Seq<char>>,
) -> Option<Seq<char>> {
    if expected != Some(id) {
        Some(unexpected_result("received frequency safety result "@, id, expected))
    } else {
        match result {
            Ok(()) => None,
            Err(e) => Some(e),
        }
    }
}

/// The state after a hand-over of caps failed: all mutation ends for good.
pub open spec fn safety_broken(m: Model, error: Seq<char>, report: ReportView) -> Model {
    let message = error + "; all further mutations are disabled"@;
    actuator_asked(
        Model {
            failures: FailuresView { safety: Some(message), ..m.failures },
            caps: CapsView { pending: None, ..m.caps },
            gates: Gates { actuator_read_only: true, ..m.gates },
            ..m
        }.with_issue("safety.frequency_fence"@, "critical"@, "actuator"@, message),
        report,
    )
}

/// The state after a hand-over of caps succeeded: the newest waiting caps
/// follow.
pub open spec fn safety_settled(m: Model) -> Model {
    let clear = m.without_issue("safety.frequency_fence"@);
    match m.caps.pending {
        Some(caps) => safety_started(
            Model { caps: CapsView { pending: None, ..m.caps }, ..clear },
            caps,
        ),
        None => clear.asks(evaluate()),
    }
}

/// The state after a hand-over of caps ended.
pub open spec fn safety_finished(
    m: Model,
    id: u64,
    result: Result<(), Seq<char>>,
    report: ReportView,
) -> Model {
    let taken = Model { work: Work { safety_update_in_flight: None, ..m.work }, ..m };
    match safety_error(m.work.safety_update_in_flight, id, result) {
        Some(e) => safety_broken(taken, e, report),
        None => safety_settled(taken),
    }
}

/// The state with a finding where the thermal verdict is degraded.
pub open spec fn thermal_noted(m: Model) -> Model {
    let cleared = m.without_issue("thermal.degraded"@);
    if m.caps.thermal_state == ThermalState::Degraded {
        cleared.with_issue(
            "thermal.degraded"@,
            "critical"@,
            "thermal"@,
            "a trusted thermal sensor is stale or unavailable; boost and new overrides are inhibited"@,
        )
    } else {
        cleared
    }
}

/// A reading that says nothing.
pub open spec fn no_reading(now: u64) -> ThermalReading {
    ThermalReading { temperature: None, sampled_at: now, health: SensorHealth::Unavailable }
}

/// The readings with those of the first `n` zones put in.
pub open spec fn with_readings(
    thermal: Map<Seq<char>, ThermalReading>,
    zones: Seq<ZoneView>,
    readings: Seq<ThermalReading>,
    n: nat,
) -> Map<Seq<char>, ThermalReading>
    decreases n,
{
    if n == 0 {
        thermal
    } else {
        with_readings(thermal, zones, readings, (n - 1) as nat).insert(
            zones[n - 1].id,
            readings[n - 1],
        )
    }
}

/// The same empty reading for every zone.
pub open spec fn no_readings(zones: Seq<ZoneView>, now: u64) -> Seq<ThermalReading> {
    Seq::new(zones.len(), |i: int| no_reading(now))
}

/// The state in which no sensor can be trusted.
#[verifier::opaque]
pub open spec fn thermal_unavailable(m: Model, now: u64) -> Model {
    let zones = m.configuration.zones;
    thermal_noted(
        Model {
            observed: ObservedView {
                thermal: with_readings(
                    m.observed.thermal,
                    zones,
                    no_readings(zones, now),
                    zones.len(),
                ),
                maximum_temperature: None,
                ..m.observed
            },
            caps: CapsView { thermal_state: ThermalState::Degraded, ..m.caps },
            ..m
        }.asks(ActionView::MarkThermalUnavailable { now }),
    )
}

/// Whether a sample was read from a zone: the type agrees, and the path too
/// where the zone names one.
pub open spec fn sample_matches(zone: ZoneView, sample: SampleView) -> bool {
    sample.zone_type == zone.zone_type && match zone.sysfs_path {
        Some(path) => path_view(path) == path_view(sample.path),
        None => true,
    }
}

/// The reading of the first of the samples from position `k` that matches.
pub open spec fn zone_reading(
    zone: ZoneView,
    samples: Seq<SampleView>,
    k: int,
    now: u64,
) -> ThermalReading
    decreases samples.len() - k,
{
    if k < 0 || k >= samples.len() {
        no_reading(now)
    } else if sample_matches(zone, samples[k]) {
        samples[k].reading
    } else {
        zone_reading(zone, samples, k + 1, now)
    }
}

/// One reading for each zone.
pub open spec fn zone_readings(zones: Seq<ZoneView>, samples: Seq<SampleView>, now: u64) -> Seq<
    ThermalReading,
> {
    Seq::new(zones.len(), |i: int| zone_reading(zones[i], samples, 0, now))
}

/// A temperature that counts.
pub open spec fn trusted_temperature(reading: ThermalReading) -> Option<i64> {
    if reading.health == SensorHealth::Healthy {
        reading.temperature
    } else {
        None
    }
}

/// The larger of two temperatures, where there are any.
pub open spec fn hotter(a: Option<i64>, b: Option<i64>) -> Option<i64> {
    match (a, b) {
        (Some(x), Some(y)) => Some(
            if x >= y {
                x
            } else {
                y
            },
        ),
        (Some(x), None) => Some(x),
        (None, y) => y,
    }
}

/// The highest trusted temperature among the first `n` readings.
pub open spec fn hottest(readings: Seq<ThermalReading>, n: nat) -> Option<i64>
    decreases n,
{
    if n == 0 {
        None
    } else {
        hotter(hottest(readings, (n - 1) as nat), trusted_temperature(readings[n - 1]))
    }
}

/// The state after a thermal observation. `verdict` is what the thermal guards
/// make of the readings.
pub open spec fn thermal_reduced(
    m: Model,
    observation: Result<Seq<SampleView>, Seq<char>>,
    verdict: ThermalState,
    now: u64,
) -> Model {
    let timed = Model { observed: ObservedView { timestamp: now, ..m.observed }, ..m };
    match observation {
        Err(message) => caps_updated(
            thermal_unavailable(
                timed.with_issue("observer.thermal"@, "critical"@, "thermal"@, message),
                now,
            ),
        ).asks(evaluate()),
        Ok(samples) => {
            let zones = m.configuration.zones;
            let readings = zone_readings(zones, samples, now);
            let seen = Model {
                observed: ObservedView {
                    timestamp: now,
                    thermal: with_readings(m.observed.thermal, zones, readings, zones.len()),
                    maximum_temperature: hottest(readings, zones.len()),
                    ..m.observed
                },
                caps: CapsView { thermal_state: verdict, ..m.caps },
                ..m
            }.without_issue("observer.thermal"@);
            let capped = caps_updated(thermal_noted(seen));
            Model {
                counters: Counters {
                    telemetry_sequence: next(capped.counters.telemetry_sequence),
                    ..capped.counters
                },
                ..capped
            }.asks(evaluate())
        },
    }
}

/// Whether a healthy reading is too old, or comes from the future.
pub open spec fn outdated(zone: ZoneView, reading: ThermalReading, now: u64) -> bool {
    reading.health == SensorHealth::Healthy && (reading.sampled_at > now || since(
        now,
        reading.sampled_at,
    ) > zone.stale_after_ms)
}

/// The reading of a zone as of `now`.
pub open spec fn aged(
    thermal: Map<Seq<char>, ThermalReading>,
    zone: ZoneView,
    now: u64,
) -> ThermalReading {
    let reading = if thermal.dom().contains(zone.id) {
        thermal[zone.id]
    } else {
        no_reading(now)
    };
    if outdated(zone, reading, now) {
        ThermalReading { health: SensorHealth::Stale, ..reading }
    } else {
        reading
    }
}

/// The readings with the first `n` zones aged.
pub open spec fn aged_readings(
    thermal: Map<Seq<char>, ThermalReading>,
    zones: Seq<ZoneView>,
    n: nat,
    now: u64,
) -> Map<Seq<char>, ThermalReading>
    decreases n,
{
    if n == 0 {
        thermal
    } else {
        let before = aged_readings(thermal, zones, (n - 1) as nat, now);
        before.insert(zones[n - 1].id, aged(before, zones[n - 1], now))
    }
}

/// Whether one of the first `n` zones turned stale.
pub open spec fn turned_stale(
    thermal: Map<Seq<char>, ThermalReading>,
    zones: Seq<ZoneView>,
    n: nat,
    now: u64,
) -> bool
    decreases n,
{
    if n == 0 {
        false
    } else {
        let before = aged_readings(thermal, zones, (n - 1) as nat, now);
        let zone = zones[n - 1];
        turned_stale(thermal, zones, (n - 1) as nat, now) || (before.dom().contains(zone.id)
            && outdated(zone, before[zone.id], now))
    }
}

/// The highest trusted temperature among the first `n` zones, once aged.
pub open spec fn aged_hottest(
    thermal: Map<Seq<char>, ThermalReading>,
    zones: Seq<ZoneView>,
    n: nat,
    now: u64,
) -> Option<i64>
    decreases n,
{
    if n == 0 {
        None
    } else {
        let before = aged_readings(thermal, zones, (n - 1) as nat, now);
        hotter(
            aged_hottest(thermal, zones, (n - 1) as nat, now),
            trusted_temperature(aged(before, zones[n - 1], now)),
        )
    }
}

/// The state with every reading aged.
pub open spec fn readings_aged(m: Model, now: u64) -> Model {
    let zones = m.configuration.zones;
    Model {
        observed: ObservedView {
            thermal: aged_readings(m.observed.thermal, zones, zones.len(), now),
            maximum_temperature: aged_hottest(m.observed.thermal, zones, zones.len(), now),
            ..m.observed
        },
        ..m
    }
}

/// The state with a new thermal verdict and what follows from it.
pub open spec fn verdict_taken(m: Model, verdict: ThermalState) -> Model {
    caps_updated(
        thermal_noted(Model { caps: CapsView { thermal_state: verdict, ..m.caps }, ..m }),
    )
}

/// Whether a sample was read from a zone.
fn matches_zone(zone: &ThermalZone, sample: &ThermalSample) -> (r: bool)
    ensures
        r == sample_matches(zone@, sample@),
{
    if sample.zone_type != zone.zone_type {
        return false;
    }
    match &zone.sysfs_path {
        Some(path) => same_path(path.as_str(), sample.path.as_str()),
        None => true,
    }
}

/// The reading of the first sample that matches a zone.
fn reading_of(zone: &ThermalZone, samples: &Vec<ThermalSample>, now: u64) -> (r: ThermalReading)
    ensures
        r == zone_reading(zone@, seq_view(samples@), 0, now),
{
    let mut k: usize = 0;
    while k < samples.len()
        invariant
            k <= samples@.len(),
            zone_reading(zone@, seq_view(samples@), 0, now) == zone_reading(
                zone@,
                seq_view(samples@),
                k as int,
                now,
            ),
        decreases samples@.len() - k,
    {
        if matches_zone(zone, &samples[k]) {
            return samples[k].reading;
        }
        k = k + 1;
    }
    ThermalReading { temperature: None, sampled_at: now, health: SensorHealth::Unavailable }
}

/// The larger of the temperatures, where there are any.
fn hotter_of(a: Option<i64>, reading: ThermalReading) -> (r: Option<i64>)
    ensures
        r == hotter(a, trusted_temperature(reading)),
{
    if reading.health != SensorHealth::Healthy {
        return a;
    }
    match (a, reading.temperature) {
        (Some(x), Some(y)) => Some(
            if x >= y {
                x
            } else {
                y
            },
        ),
        (Some(x), None) => Some(x),
        (None, y) => y,
    }
}

impl RuntimeActor {
    /// Sends a set of caps to the fence.
    fn start_frequency_safety_update(&mut self, caps: Table<u64>)
        ensures
            final(self)@ == safety_started(old(self)@, caps@),
    {
        let id: u64 = self.work.next_safety_update_id.saturating_add(1);
        self.work.next_safety_update_id = id;
        self.work.safety_update_in_flight = Some(id);
        self.ask(Action::StartSafetyUpdate { id, caps });
    }

    /// Asks for new caps at the fence.
    pub fn request_frequency_safety_update(&mut self, caps: Table<u64>)
        ensures
            final(self)@ == safety_requested(old(self)@, caps@),
    {
        if self.failures.safety.is_some() || caps.same_as(&self.caps.requested) {
            return;
        }
        self.caps.requested = caps.duplicate();
        if self.work.safety_update_in_flight.is_some() {
            self.caps.pending = Some(caps);
            return;
        }
        self.start_frequency_safety_update(caps);
    }

    /// Takes over the caps that follow from the thermal verdict.
    pub fn update_thermal_caps(&mut self)
        ensures
            final(self)@ == caps_updated(old(self)@),
    {
        proof {
            reveal(caps_updated);
        }
        let caps = thermal_caps(&self.configuration.targets, self.caps.thermal_state);
        let upper = merge_caps(&self.configuration.administrator_caps, &caps);
        let tightened = caps_tightened(&self.caps.thermal, &caps);
        self.caps.thermal = caps;
        self.request_frequency_safety_update(upper);
        if tightened {
            self.clear_frequency_failure();
        }
    }

    /// Ends all mutation after a failed hand-over of caps.
    fn break_safety(&mut self, error: &str, report: &ActuatorReport)
        ensures
            final(self)@ == safety_broken(old(self)@, error@, report@),
    {
        let message = cat2(error, "; all further mutations are disabled");
        self.failures.safety = Some(message.clone());
        self.caps.pending = None;
        self.gates.actuator_read_only = true;
        self.report("safety.frequency_fence", "critical", "actuator", message.as_str());
        self.refresh_actuator_health(report);
    }

    /// Goes on after a hand-over of caps.
    fn settle_safety(&mut self)
        ensures
            final(self)@ == safety_settled(old(self)@),
    {
        self.withdraw("safety.frequency_fence");
        match self.caps.pending.take() {
            Some(caps) => {
                self.start_frequency_safety_update(caps);
            },
            None => {
                self.ask(Action::Evaluate { then_barriers: false });
            },
        }
    }

    /// Takes over the end of a hand-over of caps.
    pub fn finish_frequency_safety_update(
        &mut self,
        id: u64,
        result: Result<(), String>,
        report: &ActuatorReport,
    )
        ensures
            final(self)@ == safety_finished(
                old(self)@,
                id,
                outcome_view(result),
                report@,
            ),
    {
        let expected = self.work.safety_update_in_flight;
        self.work.safety_update_in_flight = None;
        if expected != Some(id) {
            let error = unexpected_message("received frequency safety result ", id, expected);
            self.break_safety(error.as_str(), report);
            return;
        }
        match result {
            Ok(()) => {
                self.settle_safety();
            },
            Err(e) => {
                self.break_safety(e.as_str(), report);
            },
        }
    }

    /// Records or withdraws the finding about the thermal verdict.
    fn update_thermal_health(&mut self)
        ensures
            final(self)@ == thermal_noted(old(self)@),
    {
        self.withdraw("thermal.degraded");
        if self.caps.thermal_state == ThermalState::Degraded {
            self.report(
                "thermal.degraded",
                "critical",
                "thermal",
                "a trusted thermal sensor is stale or unavailable; boost and new overrides are inhibited",
            );
        }
    }

    /// Puts one reading in for each zone.
    fn put_readings(&mut self, readings: &Vec<ThermalReading>)
        requires
            readings@.len() == old(self)@.configuration.zones.len(),
        ensures
            final(self)@ == (Model {
                observed: ObservedView {
                    thermal: with_readings(
                        old(self)@.observed.thermal,
                        old(self)@.configuration.zones,
                        readings@,
                        readings@.len(),
                    ),
                    ..old(self)@.observed
                },
                ..old(self)@
            }),
    {
        let ghost zones = self@.configuration.zones;
        let mut i: usize = 0;
        while i < readings.len()
            invariant
                i <= readings@.len(),
                readings@.len() == zones.len(),
                zones == seq_view(self.configuration.thermal_zones@),
                self@ == (Model {
                    observed: ObservedView {
                        thermal: with_readings(
                            old(self)@.observed.thermal,
                            zones,
                            readings@,
                            i as nat,
                        ),
                        ..old(self)@.observed
                    },
                    ..old(self)@
                }),
            decreases readings@.len() - i,
        {
            let id = self.configuration.thermal_zones[i].id.clone();
            assert(id@ == zones[i as int].id);
            self.observed.thermal.insert(id, readings[i]);
            i = i + 1;
        }
    }

    /// Gives every sensor up.
    pub fn mark_all_thermal_unavailable(&mut self, now: u64)
        ensures
            final(self)@ == thermal_unavailable(old(self)@, now),
    {
        proof {
            reveal(thermal_unavailable);
        }
        let mut readings: Vec<ThermalReading> = Vec::new();
        let n: usize = self.configuration.thermal_zones.len();
        while readings.len() < n
            invariant
                readings@.len() <= n,
                forall|i: int| 0 <= i < readings@.len() ==> readings@[i] == no_reading(now),
            decreases n - readings@.len(),
        {
            readings.push(
                ThermalReading {
                    temperature: None,
                    sampled_at: now,
                    health: SensorHealth::Unavailable,
                },
            );
        }
        assert(readings@ =~= no_readings(self@.configuration.zones, now));
        self.put_readings(&readings);
        self.observed.maximum_temperature = None;
        self.caps.thermal_state = ThermalState::Degraded;
        self.ask(Action::MarkThermalUnavailable { now });
        self.update_thermal_health();
    }

    /// One reading for each zone, from the samples of one observation.
    pub fn select_readings(&self, samples: &Vec<ThermalSample>, now: u64) -> (out: Vec<
        ThermalReading,
    >)
        ensures
            out@ == zone_readings(self@.configuration.zones, seq_view(samples@), now),
    {
        let mut out: Vec<ThermalReading> = Vec::new();
        let mut i: usize = 0;
        while i < self.configuration.thermal_zones.len()
            invariant
                i <= self.configuration.thermal_zones@.len(),
                out@.len() == i,
                forall|j: int|
                    0 <= j < i ==> #[trigger] out@[j] == zone_reading(
                        self.configuration.thermal_zones@[j]@,
                        seq_view(samples@),
                        0,
                        now,
                    ),
            decreases self.configuration.thermal_zones@.len() - i,
        {
            out.push(reading_of(&self.configuration.thermal_zones[i], samples, now));
            i = i + 1;
        }
        assert(out@ =~= zone_readings(self@.configuration.zones, seq_view(samples@), now));
        out
    }

    /// Whether an observation of the given observer generation still counts: only
    /// the settings in force are answered.
    pub fn accepts_thermal(&self, generation: u64) -> (r: bool)
        ensures
            r == (generation == self@.counters.observer_generation),
    {
        generation == self.counters.observer_generation
    }

    /// Takes over a thermal observation. `verdict` is what the thermal guards
    /// make of the selected readings.
    pub fn reduce_thermal(
        &mut self,
        observation: Result<Vec<ThermalSample>, String>,
        verdict: ThermalState,
        now: u64,
    )
        ensures
            final(self)@ == thermal_reduced(
                old(self)@,
                match observation {
                    Ok(samples) => Ok(seq_view(samples@)),
                    Err(e) => Err(e@),
                },
                verdict,
                now,
            ),
    {
        self.observed.timestamp = now;
        match observation {
            Err(message) => {
                self.report("observer.thermal", "critical", "thermal", message.as_str());
                self.mark_all_thermal_unavailable(now);
                self.update_thermal_caps();
                self.ask(Action::Evaluate { then_barriers: false });
            },
            Ok(samples) => {
                let readings = self.select_readings(&samples, now);
                self.put_readings(&readings);
                self.observed.maximum_temperature = hottest_of(&readings);
                self.caps.thermal_state = verdict;
                self.withdraw("observer.thermal");
                self.update_thermal_health();
                self.update_thermal_caps();
                self.counters.telemetry_sequence = self.counters.telemetry_sequence.saturating_add(
                    1,
                );
                self.ask(Action::Evaluate { then_barriers: false });
            },
        }
    }

    /// Ages every reading and says whether one turned stale.
    pub fn age_readings(&mut self, now: u64) -> (changed: bool)
        ensures
            final(self)@ == readings_aged(old(self)@, now),
            changed == turned_stale(
                old(self)@.observed.thermal,
                old(self)@.configuration.zones,
                old(self)@.configuration.zones.len(),
                now,
            ),
    {
        let ghost zones = self@.configuration.zones;
        let ghost thermal = self@.observed.thermal;
        let n: usize = self.configuration.thermal_zones.len();
        let mut changed = false;
        let mut maximum: Option<i64> = None;
        let mut i: usize = 0;
        while i < n
            invariant
                i <= n,
                n == zones.len(),
                zones == seq_view(self.configuration.thermal_zones@),
                thermal == old(self)@.observed.thermal,
                self@ == (Model {
                    observed: ObservedView {
                        thermal: aged_readings(thermal, zones, i as nat, now),
                        ..old(self)@.observed
                    },
                    ..old(self)@
                }),
                changed == turned_stale(thermal, zones, i as nat, now),
                maximum == aged_hottest(thermal, zones, i as nat, now),
            decreases n - i,
        {
            let id = self.configuration.thermal_zones[i].id.clone();
            let stale_after: u64 = self.configuration.thermal_zones[i].stale_after_ms;
            assert(id@ == zones[i as int].id && stale_after == zones[i as int].stale_after_ms);
            let mut reading = match self.observed.thermal.copied(id.as_str()) {
                Some(r) => r,
                None => ThermalReading {
                    temperature: None,
                    sampled_at: now,
                    health: SensorHealth::Unavailable,
                },
            };
            if reading.health == SensorHealth::Healthy && (reading.sampled_at > now || now
                - reading.sampled_at > stale_after) {
                reading.health = SensorHealth::Stale;
                changed = true;
            }
            maximum = hotter_of(maximum, reading);
            self.observed.thermal.insert(id, reading);
            i = i + 1;
        }
        self.observed.maximum_temperature = maximum;
        changed
    }

    /// Takes over a new verdict of the thermal guards.
    pub fn take_verdict(&mut self, verdict: ThermalState)
        ensures
            final(self)@ == verdict_taken(old(self)@, verdict),
    {
        self.caps.thermal_state = verdict;
        self.update_thermal_health();
        self.update_thermal_caps();
    }
}

/// The highest trusted temperature.
fn hottest_of(readings: &Vec<ThermalReading>) -> (r: Option<i64>)
    ensures
        r == hottest(readings@, readings@.len()),
{
    let mut maximum: Option<i64> = None;
    let mut i: usize = 0;
    while i < readings.len()
        invariant
            i <= readings@.len(),
            maximum == hottest(readings@, i as nat),
        decreases readings@.len() - i,
    {
        maximum = hotter_of(maximum, readings[i]);
        i = i + 1;
    }
    maximum
}

/// At most one hand-over of caps is on its way, and what waits is always the
/// newest request.
pub open spec fn safety_wf(m: Model) -> bool {
    m.caps.pending is Some ==> m.work.safety_update_in_flight is Some && m.caps.pending
        == Some(m.caps.requested)
}

/// Requests are coalesced: however many sets of caps are asked for while one is
/// on its way, only the newest waits, and nothing else is sent.
pub proof fn safety_requests_coalesce(m: Model, a: Map<Seq<char>, u64>, b: Map<Seq<char>, u64>)
    requires
        safety_wf(m),
        m.work.safety_update_in_flight is Some,
        m.failures.safety is None,
        a != m.caps.requested,
        b != a,
    ensures
        safety_requested(safety_requested(m, a), b).caps.pending == Some(b),
        safety_requested(safety_requested(m, a), b).outbox == m.outbox,
        safety_wf(safety_requested(safety_requested(m, a), b)),
{
}

/// Asking for caps keeps the hand-over in order.
pub proof fn safety_request_keeps_order(m: Model, caps: Map<Seq<char>, u64>)
    requires
        safety_wf(m),
    ensures
        safety_wf(safety_requested(m, caps)),
        m.failures.safety is None ==> safety_requested(m, caps).caps.requested == caps,
{
}

/// A failed hand-over ends all mutation for good, and no later request starts
/// another one.
pub proof fn safety_failure_is_final(
    m: Model,
    id: u64,
    result: Result<(), Seq<char>>,
    report: ReportView,
    caps: Map<Seq<char>, u64>,
)
    requires
        safety_error(m.work.safety_update_in_flight, id, result) is Some,
    ensures
        safety_finished(m, id, result, report).gates.actuator_read_only,
        safety_finished(m, id, result, report).failures.safety is Some,
        safety_requested(safety_finished(m, id, result, report), caps) == safety_finished(
            m,
            id,
            result,
            report,
        ),
{
}

/// The caps sent to the fence never exceed what the administrator allows nor
/// what the thermal verdict allows.
pub proof fn requested_caps_are_safe(m: Model, k: Seq<char>)
    ensures
        m.configuration.administrator_caps.dom().contains(k) ==> upper_caps(m).dom().contains(k)
            && upper_caps(m)[k] <= m.configuration.administrator_caps[k],
        thermal_cap_map(m.configuration.targets, m.caps.thermal_state).dom().contains(k)
            ==> upper_caps(m).dom().contains(k) && upper_caps(m)[k] <= thermal_cap_map(
            m.configuration.targets,
            m.caps.thermal_state,
        )[k],
{
}

/// An untrusted sensor puts every target under its sensor-failure cap.
pub proof fn degradation_caps_every_target(m: Model, k: Seq<char>)
    requires
        m.caps.thermal_state == ThermalState::Degraded,
        m.configuration.targets.dom().contains(k),
    ensures
        upper_caps(m).dom().contains(k),
        upper_caps(m)[k] <= m.configuration.targets[k].sensor_failure_cap,
{
}

/// A stricter cap is never held back by an earlier frequency failure.
pub proof fn stricter_cap_is_not_held_back(m: Model)
    requires
        tightens(
            m.caps.thermal,
            thermal_cap_map(m.configuration.targets, m.caps.thermal_state),
        ),
    ensures
        caps_updated(m).retry.frequency_not_before == 0,
        caps_updated(m).retry.frequency_failures == 0,
{
    reveal(caps_updated);
}

/// Giving every sensor up changes the readings, the verdict and the finding about
/// them, and nothing else.
pub proof fn giving_up_keeps_the_rest(m: Model, now: u64)
    ensures
        ({
            let t = thermal_unavailable(m, now);
            &&& t.gates == m.gates
            &&& t.failures == m.failures
            &&& t.work == m.work
            &&& t.plans == m.plans
            &&& t.selection == m.selection
            &&& t.counters == m.counters
            &&& t.configuration == m.configuration
            &&& t.waiters == m.waiters
            &&& t.observed.cpu_loads == m.observed.cpu_loads
            &&& t.issues.remove("thermal.degraded"@) == m.issues.remove("thermal.degraded"@)
        }),
{
    reveal(thermal_unavailable);
    assert(thermal_unavailable(m, now).issues.remove("thermal.degraded"@) =~= m.issues.remove(
        "thermal.degraded"@,
    ));
}

} // verus!
