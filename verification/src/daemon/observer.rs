//! The periodic observers: their settings, their deadlines, and which of their
//! samples may still be published. All times are monotonic milliseconds.

use vstd::prelude::*;
use crate::model::FrequencyLimits;
use crate::number::{
    parse_u64, parsed_unsigned, unsigned_error, unsigned_error_text,
};
use crate::paths::{path_view, same_path};
use crate::platform::{PlatformResult, SysfsIo};
use crate::table::Table;
use crate::text::{cat2, cat3, copy_texts, texts, trim, trimmed};
use super::config::{ObserverSettings, ResolvedTarget, SettingsView, TargetModel};
use super::observers::FrequencyObservationBatch;
use super::overrides::REVERSED_WINDOW;
use super::state::{next, ObservedFrequency};
use super::timing::{deadline_after, next_observer_deadline, nonzero_interval, positive_interval};

verus! {

/// What the observers share: the settings in force and whether they stop.
#[derive(Debug)]
pub struct ObserverControl {
    pub settings: ObserverSettings,
    pub generation: u64,
    pub stopping: bool,
}

/// The view of [`ObserverControl`].
pub struct ControlView {
    pub settings: SettingsView,
    pub generation: u64,
    pub stopping: bool,
}

impl View for ObserverControl {
    type V = ControlView;

    open spec fn view(&self) -> ControlView {
        ControlView {
            settings: self.settings@,
            generation: self.generation,
            stopping: self.stopping,
        }
    }
}

/// Why an observer wakes up.
#[derive(Clone, Copy, Debug, PartialEq, Eq, Structural)]
pub enum ObserverWake {
    Stop,
    /// There are newer settings.
    Settings,
    /// A sample is due.
    Deadline,
    /// Not yet: sleep for so long at most.
    Wait(u64),
}

/// Whether a sample read under the given settings may be published.
pub open spec fn publishable(c: ControlView, generation: u64) -> bool {
    !c.stopping && c.generation == generation
}

/// Why an observer wakes up at `now`: a stop comes before newer settings, and
/// those before a sample.
pub open spec fn wake_reason(c: ControlView, generation: u64, deadline: u64, now: u64) -> ObserverWake {
    if c.stopping {
        ObserverWake::Stop
    } else if c.generation != generation {
        ObserverWake::Settings
    } else if now >= deadline {
        ObserverWake::Deadline
    } else {
        ObserverWake::Wait((deadline - now) as u64)
    }
}

/// The shared state after newer settings came. After a stop nothing changes.
pub open spec fn settings_replaced(c: ControlView, settings: SettingsView) -> ControlView {
    if c.stopping {
        c
    } else {
        ControlView { settings, generation: next(c.generation), ..c }
    }
}

impl ObserverControl {
    /// The shared state at the start.
    pub fn new(settings: ObserverSettings) -> (c: Self)
        ensures
            c@ == (ControlView { settings: settings@, generation: 0, stopping: false }),
    {
        ObserverControl { settings, generation: 0, stopping: false }
    }

    /// Takes newer settings over.
    pub fn replace_settings(&mut self, settings: ObserverSettings)
        ensures
            final(self)@ == settings_replaced(old(self)@, settings@),
    {
        if self.stopping {
            return;
        }
        self.settings = settings;
        self.generation = self.generation.saturating_add(1);
    }

    /// Stops every observer.
    pub fn stop(&mut self)
        ensures
            final(self)@ == (ControlView { stopping: true, ..old(self)@ }),
    {
        self.stopping = true;
    }

    /// Why an observer wakes up at `now`.
    pub fn wait(&self, generation: u64, deadline: u64, now: u64) -> (wake: ObserverWake)
        ensures
            wake == wake_reason(self@, generation, deadline, now),
    {
        if self.stopping {
            ObserverWake::Stop
        } else if self.generation != generation {
            ObserverWake::Settings
        } else if now >= deadline {
            ObserverWake::Deadline
        } else {
            ObserverWake::Wait(deadline - now)
        }
    }

    /// Whether a sample read under the given settings may be published.
    pub fn may_publish(&self, generation: u64) -> (r: bool)
        ensures
            r == publishable(self@, generation),
    {
        !self.stopping && self.generation == generation
    }
}

/// One observer: the settings it works from, the samples it took and the time
/// of the next one.
#[derive(Clone, Copy, Debug, PartialEq, Eq, Structural)]
pub struct PeriodicObserver {
    pub generation: u64,
    pub sequence: u64,
    pub deadline: u64,
    pub interval: u64,
}

/// The observer with other settings. Where they matter to it, the next sample
/// is due at once.
pub open spec fn reconfigured(
    o: PeriodicObserver,
    generation: u64,
    changed: bool,
    interval: u64,
    now: u64,
) -> PeriodicObserver {
    if changed {
        PeriodicObserver { generation, interval, deadline: now, ..o }
    } else {
        PeriodicObserver { generation, ..o }
    }
}

/// The observer with its next sample one interval on.
pub open spec fn rescheduled(o: PeriodicObserver, now: u64) -> PeriodicObserver {
    PeriodicObserver { deadline: deadline_after(o.deadline, o.interval, now) as u64, ..o }
}

/// The observer after it offered a sample. A sample that came too late, because
/// of newer settings, is dropped.
pub open spec fn sampled(
    o: PeriodicObserver,
    published: bool,
    generation: u64,
    changed: bool,
    interval: u64,
    now: u64,
) -> PeriodicObserver {
    if published {
        rescheduled(o, now)
    } else if changed {
        reconfigured(o, generation, true, interval, now)
    } else {
        rescheduled(reconfigured(o, generation, false, interval, now), now)
    }
}

impl PeriodicObserver {
    /// An observer whose first sample is due at once.
    pub fn new(generation: u64, interval: u64, now: u64) -> (o: Self)
        ensures
            o == (PeriodicObserver { generation, sequence: 0, deadline: now, interval }),
    {
        PeriodicObserver { generation, sequence: 0, deadline: now, interval }
    }

    /// Takes other settings over.
    pub fn reconfigure(&mut self, generation: u64, changed: bool, interval: u64, now: u64)
        ensures
            *final(self) == reconfigured(*old(self), generation, changed, interval, now),
    {
        self.generation = generation;
        if changed {
            self.interval = interval;
            self.deadline = now;
        }
    }

    /// The number of the sample that is taken now.
    pub fn begin_sample(&mut self) -> (sequence: u64)
        ensures
            *final(self) == (PeriodicObserver { sequence: next(old(self).sequence), ..*old(self) }),
            sequence == next(old(self).sequence),
    {
        self.sequence = self.sequence.saturating_add(1);
        self.sequence
    }

    /// Schedules the next sample after one was offered.
    pub fn finish_sample(
        &mut self,
        published: bool,
        generation: u64,
        changed: bool,
        interval: u64,
        now: u64,
    )
        requires
            now + positive_interval(old(self).interval) <= u64::MAX,
        ensures
            *final(self) == sampled(*old(self), published, generation, changed, interval, now),
    {
        if !published {
            self.reconfigure(generation, changed, interval, now);
            if changed {
                return;
            }
        }
        self.deadline = next_observer_deadline(self.deadline, self.interval, now);
    }
}

/// The settings of the thermal observer.
#[derive(Debug)]
pub struct ThermalObserverSettings {
    pub observer_generation: u64,
    pub interval: u64,
    pub paths: Vec<String>,
}

/// The view of [`ThermalObserverSettings`].
pub struct ThermalSettingsView {
    pub observer_generation: u64,
    pub interval: u64,
    pub paths: Seq<Seq<char>>,
}

impl View for ThermalObserverSettings {
    type V = ThermalSettingsView;

    open spec fn view(&self) -> ThermalSettingsView {
        ThermalSettingsView {
            observer_generation: self.observer_generation,
            interval: self.interval,
            paths: texts(self.paths@),
        }
    }
}

/// The part of the settings that the thermal observer works from.
pub open spec fn thermal_settings(s: SettingsView) -> ThermalSettingsView {
    ThermalSettingsView {
        observer_generation: s.generation,
        interval: positive_interval(s.thermal_interval_ms),
        paths: s.thermal_paths,
    }
}

impl ThermalObserverSettings {
    /// The part of the settings that the thermal observer works from.
    pub fn select(settings: &ObserverSettings) -> (out: Self)
        ensures
            out@ == thermal_settings(settings@),
    {
        ThermalObserverSettings {
            observer_generation: settings.generation,
            interval: nonzero_interval(settings.thermal_interval_ms),
            paths: copy_texts(&settings.thermal_paths),
        }
    }

    /// Whether two settings agree.
    pub fn same_as(&self, other: &ThermalObserverSettings) -> (r: bool)
        ensures
            r == thermal_settings_agree(self@, other@),
    {
        self.observer_generation == other.observer_generation && self.interval == other.interval
            && same_files(&self.paths, &other.paths)
    }
}

/// Whether two lists of paths agree, each path by its components.
pub open spec fn paths_agree(a: Seq<Seq<char>>, b: Seq<Seq<char>>) -> bool {
    &&& a.len() == b.len()
    &&& forall|i: int| 0 <= i < a.len() ==> path_view(#[trigger] a[i]) == path_view(b[i])
}

/// Whether two settings agree.
pub open spec fn thermal_settings_agree(a: ThermalSettingsView, b: ThermalSettingsView) -> bool {
    &&& a.observer_generation == b.observer_generation
    &&& a.interval == b.interval
    &&& paths_agree(a.paths, b.paths)
}

/// Whether two lists of paths agree.
fn same_files(a: &Vec<String>, b: &Vec<String>) -> (r: bool)
    ensures
        r == paths_agree(texts(a@), texts(b@)),
{
    assert(texts(a@).len() == a@.len() && texts(b@).len() == b@.len());
    if a.len() != b.len() {
        return false;
    }
    let mut i: usize = 0;
    while i < a.len()
        invariant
            i <= a@.len(),
            a@.len() == b@.len(),
            texts(a@).len() == a@.len(),
            texts(b@).len() == b@.len(),
            forall|j: int|
                0 <= j < i ==> path_view(#[trigger] texts(a@)[j]) == path_view(texts(b@)[j]),
        decreases a@.len() - i,
    {
        assert(texts(a@)[i as int] == a@[i as int]@ && texts(b@)[i as int] == b@[i as int]@);
        if !same_path(a[i].as_str(), b[i].as_str()) {
            return false;
        }
        i = i + 1;
    }
    true
}

/// The frequency that a kernel file gives, in hertz.
pub open spec fn scaled_frequency(text: Seq<char>, unit: u64) -> Option<u64> {
    match parsed_unsigned(trimmed(text), u64::MAX as nat) {
        Some(n) => if n * unit <= u64::MAX {
            Some((n * unit) as u64)
        } else {
            None
        },
        None => None,
    }
}

/// Why a kernel file gives no frequency.
pub open spec fn frequency_error(path: Seq<char>, text: Seq<char>) -> Seq<char> {
    match parsed_unsigned(trimmed(text), u64::MAX as nat) {
        Some(_) => path + ": frequency overflow"@,
        None => path + ": "@ + unsigned_error(trimmed(text), u64::MAX as nat),
    }
}

/// The frequency that a kernel file gives, or why it gives none.
pub fn parse_frequency(path: &str, text: &str, unit: u64) -> (r: Result<u64, String>)
    ensures
        match r {
            Ok(f) => scaled_frequency(text@, unit) == Some(f),
            Err(e) => scaled_frequency(text@, unit) is None && e@ == frequency_error(path@, text@),
        },
{
    let inner = trim(text);
    match parse_u64(inner.as_str()) {
        None => {
            let why = unsigned_error_text(inner.as_str(), u64::MAX);
            Err(cat3(path, ": ", why))
        },
        Some(n) => match n.checked_mul(unit) {
            Some(f) => Ok(f),
            None => Err(cat2(path, ": frequency overflow")),
        },
    }
}

/// What was read of the two window files of a target: the texts, or why one
/// could not be read.
pub open spec fn window_read(
    minimum_path: Seq<char>,
    minimum: Result<Seq<char>, Seq<char>>,
    maximum_path: Seq<char>,
    maximum: Result<Seq<char>, Seq<char>>,
    unit: u64,
) -> Result<FrequencyLimits, Seq<char>> {
    match minimum {
        Err(e) => Err(e),
        Ok(low) => match scaled_frequency(low, unit) {
            None => Err(frequency_error(minimum_path, low)),
            Some(min) => match maximum {
                Err(e) => Err(e),
                Ok(high) => match scaled_frequency(high, unit) {
                    None => Err(frequency_error(maximum_path, high)),
                    Some(max) => if min > max {
                        Err(REVERSED_WINDOW@)
                    } else {
                        Ok(FrequencyLimits { min, max })
                    },
                },
            },
        },
    }
}

/// The view of a text that was read, or of why it was not.
pub open spec fn read_view(r: Result<String, String>) -> Result<Seq<char>, Seq<char>> {
    match r {
        Ok(s) => Ok(s@),
        Err(e) => Err(e@),
    }
}

/// The window of a target from what was read of its files.
pub fn parse_window(
    minimum_path: &str,
    minimum: &Result<String, String>,
    maximum_path: &str,
    maximum: &Result<String, String>,
    unit: u64,
) -> (r: Result<FrequencyLimits, String>)
    ensures
        match r {
            Ok(l) => window_read(
                minimum_path@,
                read_view(*minimum),
                maximum_path@,
                read_view(*maximum),
                unit,
            ) == Ok::<FrequencyLimits, Seq<char>>(l),
            Err(e) => window_read(
                minimum_path@,
                read_view(*minimum),
                maximum_path@,
                read_view(*maximum),
                unit,
            ) == Err::<FrequencyLimits, Seq<char>>(e@),
        },
{
    let low = match minimum {
        Err(e) => {
            return Err(e.clone());
        },
        Ok(s) => s,
    };
    let min: u64 = match parse_frequency(minimum_path, low.as_str(), unit) {
        Err(e) => {
            return Err(e);
        },
        Ok(f) => f,
    };
    let high = match maximum {
        Err(e) => {
            return Err(e.clone());
        },
        Ok(s) => s,
    };
    let max: u64 = match parse_frequency(maximum_path, high.as_str(), unit) {
        Err(e) => {
            return Err(e);
        },
        Ok(f) => f,
    };
    match FrequencyLimits::new(min, max) {
        Some(l) => Ok(l),
        None => Err(REVERSED_WINDOW.to_owned()),
    }
}

/// The text of an attribute, or the message of the failure.
pub open spec fn reply_text(reply: PlatformResult<String>) -> Result<Seq<char>, Seq<char>> {
    match reply {
        Ok(s) => Ok(s@),
        Err(e) => Err(e@.text()),
    }
}

/// Whether reading an attribute can give a text, or the message of a failure.
pub open spec fn reads<S: SysfsIo>(
    sysfs: &S,
    path: Seq<char>,
    text: Result<Seq<char>, Seq<char>>,
) -> bool {
    exists|p: &str, reply: PlatformResult<String>|
        {
            &&& #[trigger] call_ensures(S::read_string, (sysfs, p), reply)
            &&& p@ == path
            &&& text == reply_text(reply)
        }
}

/// A text attribute, with the failure as text.
fn read_text<S: SysfsIo>(sysfs: &S, path: &str) -> (r: Result<String, String>)
    ensures
        reads(sysfs, path@, read_view(r)),
{
    let reply = sysfs.read_string(path);
    assert(call_ensures(S::read_string, (sysfs, path), reply));
    match reply {
        Ok(s) => Ok(s),
        Err(e) => Err(e.message()),
    }
}

/// Whether two texts can be read of the window files of a target. The upper end
/// is read only where the lower one is a frequency.
pub open spec fn window_reads<S: SysfsIo>(
    sysfs: &S,
    target: TargetModel,
    minimum: Result<Seq<char>, Seq<char>>,
    maximum: Result<Seq<char>, Seq<char>>,
) -> bool {
    &&& reads(sysfs, target.minimum_path, minimum)
    &&& minimum is Ok && scaled_frequency(minimum->Ok_0, target.hertz_per_unit) is Some ==> reads(
        sysfs,
        target.maximum_path,
        maximum,
    )
}

/// Whether reading the window of a target can end in a way: the way that the
/// texts of its two files give.
pub open spec fn limits_read<S: SysfsIo>(
    sysfs: &S,
    target: TargetModel,
    limits: Result<FrequencyLimits, Seq<char>>,
) -> bool {
    exists|minimum: Result<Seq<char>, Seq<char>>, maximum: Result<Seq<char>, Seq<char>>|
        {
            &&& #[trigger] window_reads(sysfs, target, minimum, maximum)
            &&& limits == window_read(
                target.minimum_path,
                minimum,
                target.maximum_path,
                maximum,
                target.hertz_per_unit,
            )
        }
}

/// The view of a window, or of why there is none.
pub open spec fn limits_view(r: Result<FrequencyLimits, String>) -> Result<
    FrequencyLimits,
    Seq<char>,
> {
    match r {
        Ok(l) => Ok(l),
        Err(e) => Err(e@),
    }
}

/// Reads the window of a target. Whatever the files hold, a window that comes
/// back has its ends in order.
pub fn read_frequency_limits<S: SysfsIo>(sysfs: &S, target: &ResolvedTarget) -> (r: Result<
    FrequencyLimits,
    String,
>)
    ensures
        limits_read(sysfs, target@, limits_view(r)),
        match r {
            Ok(l) => l.min <= l.max,
            Err(_) => true,
        },
{
    let minimum = read_text(sysfs, target.paths.minimum.as_str());
    let usable = match &minimum {
        Ok(text) => parse_frequency(
            target.paths.minimum.as_str(),
            text.as_str(),
            target.paths.hertz_per_unit,
        ).is_ok(),
        Err(_) => false,
    };
    let maximum = if usable {
        read_text(sysfs, target.paths.maximum.as_str())
    } else {
        Err(String::new())
    };
    assert(window_reads(sysfs, target@, read_view(minimum), read_view(maximum)));
    parse_window(
        target.paths.minimum.as_str(),
        &minimum,
        target.paths.maximum.as_str(),
        &maximum,
        target.paths.hertz_per_unit,
    )
}

/// Whether reading the instantaneous frequency of a target can give a value: the
/// one that the text of its file gives, and none where there is no such text.
pub open spec fn current_read<S: SysfsIo>(
    sysfs: &S,
    target: TargetModel,
    current: Option<u64>,
) -> bool {
    exists|text: Result<Seq<char>, Seq<char>>|
        {
            &&& #[trigger] reads(sysfs, target.current_path, text)
            &&& current == match text {
                Ok(t) => scaled_frequency(t, target.hertz_per_unit),
                Err(_) => None,
            }
        }
}

/// Reads the instantaneous frequency of a target, where there is one.
pub fn read_current_frequency<S: SysfsIo>(sysfs: &S, target: &ResolvedTarget) -> (r: Option<u64>)
    ensures
        current_read(sysfs, target@, r),
{
    let text = read_text(sysfs, target.paths.current.as_str());
    assert(reads(sysfs, target@.current_path, read_view(text)));
    match text {
        Err(_) => None,
        Ok(text) => match parse_frequency(
            target.paths.current.as_str(),
            text.as_str(),
            target.paths.hertz_per_unit,
        ) {
            Ok(f) => Some(f),
            Err(_) => None,
        },
    }
}

/// Reads every target. Each of them is among the readings or among the errors,
/// and no other, with what its files gave.
pub fn read_frequency_observation<S: SysfsIo>(sysfs: &S, targets: &Table<ResolvedTarget>) -> (out:
    FrequencyObservationBatch)
    ensures
        forall|k: Seq<char>| #[trigger]
            targets@.dom().contains(k) <==> out@.readings.dom().contains(k)
                || out@.errors.dom().contains(k),
        forall|k: Seq<char>| #[trigger]
            out@.readings.dom().contains(k) ==> !out@.errors.dom().contains(k)
                && out@.readings[k].limits.min <= out@.readings[k].limits.max,
        forall|k: Seq<char>| #[trigger]
            out@.readings.dom().contains(k) ==> limits_read(
                sysfs,
                targets@[k],
                Ok(out@.readings[k].limits),
            ) && current_read(sysfs, targets@[k], out@.readings[k].current),
        forall|k: Seq<char>| #[trigger]
            out@.errors.dom().contains(k) ==> limits_read(
                sysfs,
                targets@[k],
                Err(out@.errors[k]),
            ),
{
    let mut readings: Table<ObservedFrequency> = Table::new();
    let mut errors: Table<String> = Table::new();
    let n: usize = targets.len();
    let mut i: usize = 0;
    while i < n
        invariant
            i <= n,
            n == targets.keys().len(),
            crate::table::texts_ascending(targets.keys()),
            forall|k: Seq<char>| #[trigger] targets@.dom().contains(k) <==> targets.keys().contains(k),
            forall|k: Seq<char>|
                #![trigger readings@.dom().contains(k)]
                #![trigger errors@.dom().contains(k)]
                targets.keys().take(i as int).contains(k) <==> readings@.dom().contains(k)
                    || errors@.dom().contains(k),
            forall|k: Seq<char>| #[trigger]
                readings@.dom().contains(k) ==> !errors@.dom().contains(k)
                    && readings@[k].limits.min <= readings@[k].limits.max,
            forall|k: Seq<char>| #[trigger]
                readings@.dom().contains(k) ==> limits_read(
                    sysfs,
                    targets@[k],
                    Ok(readings@[k].limits),
                ) && current_read(sysfs, targets@[k], readings@[k].current),
            forall|k: Seq<char>| #[trigger]
                errors@.dom().contains(k) ==> limits_read(sysfs, targets@[k], Err(errors@[k])),
        decreases n - i,
    {
        let key = targets.key_at(i);
        let ghost before = targets.keys().take(i as int);
        let ghost after = targets.keys().take(i + 1);
        proof {
            assert(after =~= before.push(key@));
            assert forall|x: Seq<char>| #[trigger] after.contains(x) <==> before.contains(x) || x
                == key@ by {
                if before.contains(x) {
                    let j = choose|j: int| 0 <= j < before.len() && before[j] == x;
                    assert(after[j] == x);
                }
                if x == key@ {
                    assert(after[i as int] == x);
                }
            }
            if before.contains(key@) {
                let j = choose|j: int| 0 <= j < before.len() && before[j] == key@;
                assert(crate::order::text_lt(targets.keys()[j], targets.keys()[i as int]));
                crate::order::text_lt_irreflexive(key@);
            }
            assert(!readings@.dom().contains(key@) && !errors@.dom().contains(key@));
        }
        let ghost r0 = readings@;
        let ghost e0 = errors@;
        match read_frequency_limits(sysfs, targets.value_at(i)) {
            Ok(limits) => {
                let current = read_current_frequency(sysfs, targets.value_at(i));
                readings.insert(key.to_owned(), ObservedFrequency { limits, current });
            },
            Err(e) => {
                errors.insert(key.to_owned(), e);
            },
        }
        proof {
            assert forall|k: Seq<char>|
                #![trigger readings@.dom().contains(k)]
                #![trigger errors@.dom().contains(k)]
                after.contains(k) <==> readings@.dom().contains(k) || errors@.dom().contains(k) by {
                assert(before.contains(k) <==> r0.dom().contains(k) || e0.dom().contains(k));
            }
        }
        i = i + 1;
    }
    assert(targets.keys().take(n as int) =~= targets.keys());
    FrequencyObservationBatch { readings, errors }
}

/// After a stop nothing is published any more, whatever comes.
pub proof fn nothing_is_published_after_stop(c: ControlView, settings: SettingsView, generation: u64)
    requires
        c.stopping,
    ensures
        !publishable(c, generation),
        !publishable(settings_replaced(c, settings), generation),
{
}

/// A sample read under superseded settings is never published.
pub proof fn superseded_sample_is_dropped(c: ControlView, settings: SettingsView, generation: u64)
    requires
        publishable(c, generation),
        c.generation < u64::MAX,
    ensures
        !publishable(settings_replaced(c, settings), generation),
{
}

/// Newer settings that matter to an observer make its next sample due at once.
pub proof fn newer_settings_take_effect_at_once(
    o: PeriodicObserver,
    generation: u64,
    interval: u64,
    now: u64,
    c: ControlView,
)
    requires
        publishable(c, generation),
    ensures
        wake_reason(
            c,
            generation,
            reconfigured(o, generation, true, interval, now).deadline,
            now,
        ) == ObserverWake::Deadline,
{
}

} // verus!
