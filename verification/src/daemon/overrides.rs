//! Manual frequency windows.

use vstd::prelude::*;
use crate::api::{FrequencyOverride, OverrideView};
use crate::model::{is_valid_id, seq_view, valid_id, FrequencyLimits, ThermalState};
use crate::table::Table;
use crate::text::{cat2, same, texts};
use super::health::latched;
use super::hints::expiry;
use super::names::{receipt, ErrorView, RuntimeError};
use super::state::{
    evaluate, next, Action, Counters, Model, RuntimeActor, SelectionView, TimedOverride,
};
use super::workload::{answer, empty_receipt, receipt_view};

verus! {

/// Why a text is no target identifier.
pub const INVALID_TARGET_ID: &'static str =
    "target identifiers are 1 to 64 ASCII letters, digits, dots, underscores or hyphens, a letter or digit first";

/// Why a window is no window.
pub const REVERSED_WINDOW: &'static str = "the minimum frequency exceeds the maximum frequency";

/// Why nothing may be mutated, if so.
pub open spec fn mutation_error(m: Model) -> Option<ErrorView> {
    if m.gates.actuator is None {
        Some(ErrorView::Degraded("daemon is running read-only"@))
    } else if !m.gates.actuator_read_only {
        None
    } else if m.failures.restore is Some {
        Some(ErrorView::Degraded(m.failures.restore->0))
    } else if m.failures.safety is Some {
        Some(ErrorView::Degraded(m.failures.safety->0))
    } else if m.failures.worker is Some {
        Some(ErrorView::Degraded(m.failures.worker->0))
    } else if m.issues.dom().contains("actuator.degraded"@) {
        Some(ErrorView::Degraded(m.issues["actuator.degraded"@].message))
    } else {
        Some(ErrorView::Degraded("actuator is read-only degraded"@))
    }
}

/// Why one request of a batch is refused, if so: an identifier must be valid,
/// new in the batch and known, and the window must lie inside the hardware
/// limits.
pub open spec fn override_error(m: Model, requests: Seq<OverrideView>, i: int) -> Option<ErrorView> {
    let r = requests[i];
    let targets = m.configuration.targets;
    if !valid_id(r.target_id) {
        Some(ErrorView::InvalidArgument(INVALID_TARGET_ID@))
    } else if exists|j: int| 0 <= j < i && (#[trigger] requests[j]).target_id == r.target_id {
        Some(ErrorView::InvalidArgument("duplicate target "@ + r.target_id))
    } else if !targets.dom().contains(r.target_id) {
        Some(ErrorView::NotFound(r.target_id))
    } else if r.min_hz > r.max_hz {
        Some(ErrorView::InvalidArgument(REVERSED_WINDOW@))
    } else if r.min_hz < targets[r.target_id].hardware_limits.min || r.max_hz
        > targets[r.target_id].hardware_limits.max {
        Some(
            ErrorView::InvalidArgument(
                r.target_id + ": override lies outside advertised hardware limits"@,
            ),
        )
    } else {
        None
    }
}

/// Why one of the first `n` requests is refused: the earliest refusal counts.
pub open spec fn batch_error(m: Model, requests: Seq<OverrideView>, n: nat) -> Option<ErrorView>
    decreases n,
{
    if n == 0 {
        None
    } else {
        match batch_error(m, requests, (n - 1) as nat) {
            Some(e) => Some(e),
            None => override_error(m, requests, n - 1),
        }
    }
}

/// The window that a request asks for.
pub open spec fn requested_window(r: OverrideView, now: u64) -> TimedOverride {
    TimedOverride {
        limits: FrequencyLimits { min: r.min_hz, max: r.max_hz },
        expires_at: if r.ttl_ms == 0 {
            None
        } else {
            Some(expiry(now, r.ttl_ms))
        },
    }
}

/// The windows with the first `n` requests put in.
pub open spec fn with_requests(
    overrides: Map<Seq<char>, TimedOverride>,
    requests: Seq<OverrideView>,
    n: nat,
    now: u64,
) -> Map<Seq<char>, TimedOverride>
    decreases n,
{
    if n == 0 {
        overrides
    } else {
        with_requests(overrides, requests, (n - 1) as nat, now).insert(
            requests[n - 1].target_id,
            requested_window(requests[n - 1], now),
        )
    }
}

/// Why a whole batch is refused, if so.
pub open spec fn set_error(m: Model, requests: Seq<OverrideView>) -> Option<ErrorView> {
    if m.caps.thermal_state == ThermalState::Degraded {
        Some(ErrorView::Degraded("trusted thermal data is not currently healthy"@))
    } else if requests.len() == 0 {
        Some(ErrorView::InvalidArgument("at least one override is required"@))
    } else if mutation_error(m) is Some {
        mutation_error(m)
    } else {
        batch_error(m, requests, requests.len())
    }
}

/// The targets of a batch, in order.
pub open spec fn batch_ids(requests: Seq<OverrideView>) -> Seq<Seq<char>> {
    Seq::new(requests.len(), |i: int| requests[i].target_id)
}

/// The state with other manual windows and its control generation one step on.
pub open spec fn windows_replaced(m: Model, overrides: Map<Seq<char>, TimedOverride>) -> Model {
    Model {
        selection: SelectionView { overrides, ..m.selection },
        counters: Counters { generation: next(m.counters.generation), ..m.counters },
        ..m
    }.asks(evaluate())
}

/// The state after a batch of manual windows was asked for: all of them are
/// taken, or none.
pub open spec fn overrides_set(
    m: Model,
    requests: Seq<OverrideView>,
    ticket: u64,
    now: u64,
) -> Model {
    match set_error(m, requests) {
        Some(e) => m.asks(answer(ticket, Err(e))),
        None => windows_replaced(
            m,
            with_requests(m.selection.overrides, requests, requests.len(), now),
        ).asks(
            answer(
                ticket,
                Ok(
                    receipt_view(
                        next(m.counters.generation),
                        batch_ids(requests),
                        "frequency override batch accepted"@,
                    ),
                ),
            ),
        ),
    }
}

/// The texts among the first `n` that name an active window, in order.
pub open spec fn active_ids(
    overrides: Map<Seq<char>, TimedOverride>,
    ids: Seq<Seq<char>>,
    n: nat,
) -> Seq<Seq<char>>
    decreases n,
{
    if n == 0 {
        Seq::empty()
    } else {
        let before = active_ids(overrides, ids, (n - 1) as nat);
        if overrides.dom().contains(ids[n - 1]) {
            before.push(ids[n - 1])
        } else {
            before
        }
    }
}

/// Whether every text is a target identifier.
pub open spec fn all_valid(ids: Seq<Seq<char>>) -> bool {
    forall|i: int| 0 <= i < ids.len() ==> valid_id(#[trigger] ids[i])
}

/// The state after the given windows were cleared.
pub open spec fn ids_cleared(m: Model, ids: Seq<Seq<char>>, ticket: u64) -> Model {
    let changed = active_ids(m.selection.overrides, ids, ids.len());
    if changed.len() == 0 {
        m.asks(
            answer(
                ticket,
                Ok(
                    receipt_view(
                        m.counters.generation,
                        Seq::empty(),
                        "no matching overrides were active"@,
                    ),
                ),
            ),
        )
    } else {
        windows_replaced(m, m.selection.overrides.remove_keys(changed.to_set())).asks(
            answer(
                ticket,
                Ok(
                    receipt_view(
                        next(m.counters.generation),
                        changed,
                        "frequency overrides cleared"@,
                    ),
                ),
            ),
        )
    }
}

/// The state after windows were asked to be cleared. `all` are the active ones
/// in order, meant by an empty list.
pub open spec fn overrides_cleared(
    m: Model,
    requested: Seq<Seq<char>>,
    all: Seq<Seq<char>>,
    ticket: u64,
) -> Model {
    match mutation_error(m) {
        Some(e) => m.asks(answer(ticket, Err(e))),
        None => if requested.len() == 0 {
            ids_cleared(m, all, ticket)
        } else if !all_valid(requested) {
            m.asks(answer(ticket, Err(ErrorView::InvalidArgument(INVALID_TARGET_ID@))))
        } else {
            ids_cleared(m, requested, ticket)
        },
    }
}

/// Whether a window still holds at `now`.
pub open spec fn window_live(w: TimedOverride, now: u64) -> bool {
    match w.expires_at {
        Some(t) => now < t,
        None => true,
    }
}

/// The windows that still hold at `now`.
pub open spec fn live_windows(overrides: Map<Seq<char>, TimedOverride>, now: u64) -> Map<
    Seq<char>,
    TimedOverride,
> {
    Map::new(
        |k: Seq<char>| overrides.dom().contains(k) && window_live(overrides[k], now),
        |k: Seq<char>| overrides[k],
    )
}

/// Drops the windows that no longer hold, and says whether there was one.
pub fn drop_expired(overrides: &mut Table<TimedOverride>, now: u64) -> (dropped: bool)
    ensures
        final(overrides)@ == live_windows(old(overrides)@, now),
        dropped == (final(overrides)@ != old(overrides)@),
{
    let ghost start = overrides@;
    let n: usize = overrides.len();
    let mut kept: Table<TimedOverride> = Table::new();
    let mut dropped = false;
    let mut i: usize = 0;
    while i < n
        invariant
            i <= n,
            n == overrides.keys().len(),
            start == overrides@,
            forall|k: Seq<char>| #[trigger]
                overrides@.dom().contains(k) <==> overrides.keys().contains(k),
            forall|k: Seq<char>| #[trigger]
                kept@.dom().contains(k) ==> start.dom().contains(k) && window_live(start[k], now)
                    && kept@[k] == start[k],
            forall|j: int|
                0 <= j < i && window_live(start[#[trigger] overrides.keys()[j]], now)
                    ==> kept@.dom().contains(overrides.keys()[j]),
            dropped ==> exists|k: Seq<char>| #[trigger]
                start.dom().contains(k) && !window_live(start[k], now),
            !dropped ==> forall|j: int|
                0 <= j < i ==> window_live(start[#[trigger] overrides.keys()[j]], now),
        decreases n - i,
    {
        let key = overrides.key_at(i);
        let w = *overrides.value_at(i);
        let live = match w.expires_at {
            Some(t) => now < t,
            None => true,
        };
        if live {
            kept.insert(key.to_owned(), w);
        } else {
            dropped = true;
            assert(start.dom().contains(key@) && !window_live(start[key@], now));
        }
        i = i + 1;
    }
    proof {
        assert forall|k: Seq<char>| start.dom().contains(k) && window_live(start[k], now) implies #[trigger] kept@.dom().contains(
            k,
        ) by {
            assert(overrides.keys().contains(k));
            let j = choose|j: int| 0 <= j < overrides.keys().len() && overrides.keys()[j] == k;
            assert(kept@.dom().contains(overrides.keys()[j]));
        }
        assert(kept@ =~= live_windows(start, now));
        if dropped {
            let k = choose|k: Seq<char>| #[trigger]
                start.dom().contains(k) && !window_live(start[k], now);
            assert(!kept@.dom().contains(k));
        } else {
            assert forall|k: Seq<char>| #[trigger] start.dom().contains(k) implies kept@.dom().contains(k) by {
                assert(overrides.keys().contains(k));
                let j = choose|j: int| 0 <= j < overrides.keys().len() && overrides.keys()[j] == k;
                assert(window_live(start[overrides.keys()[j]], now));
            }
            assert(kept@ =~= start);
        }
    }
    *overrides = kept;
    dropped
}

impl RuntimeActor {
    /// Why nothing may be mutated, if so.
    pub fn require_writable_actuator(&self) -> (r: Result<(), RuntimeError>)
        ensures
            match r {
                Ok(()) => mutation_error(self@) is None,
                Err(e) => mutation_error(self@) == Some(e@),
            },
    {
        if self.gates.actuator.is_none() {
            return Err(RuntimeError::Degraded("daemon is running read-only".to_owned()));
        }
        if !self.gates.actuator_read_only {
            return Ok(());
        }
        if let Some(reason) = &self.failures.restore {
            return Err(RuntimeError::Degraded(reason.clone()));
        }
        if let Some(reason) = &self.failures.safety {
            return Err(RuntimeError::Degraded(reason.clone()));
        }
        if let Some(reason) = &self.failures.worker {
            return Err(RuntimeError::Degraded(reason.clone()));
        }
        match self.health_issues.get("actuator.degraded") {
            Some(issue) => Err(RuntimeError::Degraded(issue.message.clone())),
            None => Err(RuntimeError::Degraded("actuator is read-only degraded".to_owned())),
        }
    }

    /// Why one request of a batch is refused, if so.
    fn check_override(&self, requests: &Vec<FrequencyOverride>, i: usize) -> (r: Option<RuntimeError>)
        requires
            i < requests@.len(),
        ensures
            match r {
                Some(e) => override_error(self@, seq_view(requests@), i as int) == Some(e@),
                None => override_error(self@, seq_view(requests@), i as int) is None,
            },
    {
        let ghost views = seq_view(requests@);
        let request = &requests[i];
        let id = request.target_id.as_str();
        if !is_valid_id(id) {
            return Some(RuntimeError::InvalidArgument(INVALID_TARGET_ID.to_owned()));
        }
        let mut j: usize = 0;
        while j < i
            invariant
                j <= i < requests@.len(),
                views == seq_view(requests@),
                id@ == views[i as int].target_id,
                forall|x: int| 0 <= x < j ==> (#[trigger] views[x]).target_id != id@,
                valid_id(id@),
            decreases i - j,
        {
            if same(requests[j].target_id.as_str(), id) {
                assert(views[j as int].target_id == views[i as int].target_id);
                return Some(RuntimeError::InvalidArgument(cat2("duplicate target ", id)));
            }
            j = j + 1;
        }
        match self.configuration.targets.get(id) {
            None => Some(RuntimeError::NotFound(id.to_owned())),
            Some(target) => if request.min_hz > request.max_hz {
                Some(RuntimeError::InvalidArgument(REVERSED_WINDOW.to_owned()))
            } else if request.min_hz < target.hardware_limits.min || request.max_hz
                > target.hardware_limits.max {
                Some(
                    RuntimeError::InvalidArgument(
                        cat2(id, ": override lies outside advertised hardware limits"),
                    ),
                )
            } else {
                None
            },
        }
    }

    /// Why a whole batch is refused, if so.
    fn check_overrides(&self, requests: &Vec<FrequencyOverride>) -> (r: Option<RuntimeError>)
        ensures
            match r {
                Some(e) => set_error(self@, seq_view(requests@)) == Some(e@),
                None => set_error(self@, seq_view(requests@)) is None,
            },
    {
        let ghost views = seq_view(requests@);
        assert(views.len() == requests@.len());
        if self.caps.thermal_state == ThermalState::Degraded {
            return Some(
                RuntimeError::Degraded("trusted thermal data is not currently healthy".to_owned()),
            );
        }
        if requests.len() == 0 {
            return Some(
                RuntimeError::InvalidArgument("at least one override is required".to_owned()),
            );
        }
        if let Err(e) = self.require_writable_actuator() {
            return Some(e);
        }
        let mut i: usize = 0;
        while i < requests.len()
            invariant
                i <= requests@.len(),
                views == seq_view(requests@),
                batch_error(self@, views, i as nat) is None,
                set_error(self@, views) == batch_error(self@, views, views.len()),
            decreases requests@.len() - i,
        {
            if let Some(e) = self.check_override(requests, i) {
                proof {
                    error_is_kept(self@, views, (i + 1) as nat, views.len());
                }
                return Some(e);
            }
            i = i + 1;
        }
        None
    }

    /// Puts the windows of a batch in.
    fn put_windows(&mut self, requests: &Vec<FrequencyOverride>, now: u64)
        ensures
            final(self)@ == (Model {
                selection: SelectionView {
                    overrides: with_requests(
                        old(self)@.selection.overrides,
                        seq_view(requests@),
                        requests@.len(),
                        now,
                    ),
                    ..old(self)@.selection
                },
                ..old(self)@
            }),
    {
        let ghost views = seq_view(requests@);
        let mut i: usize = 0;
        while i < requests.len()
            invariant
                i <= requests@.len(),
                views == seq_view(requests@),
                self@ == (Model {
                    selection: SelectionView {
                        overrides: with_requests(
                            old(self)@.selection.overrides,
                            views,
                            i as nat,
                            now,
                        ),
                        ..old(self)@.selection
                    },
                    ..old(self)@
                }),
            decreases requests@.len() - i,
        {
            let r = &requests[i];
            assert(views[i as int] == r@);
            let expires_at: Option<u64> = if r.ttl_ms == 0 {
                None
            } else {
                Some(now.saturating_add(r.ttl_ms))
            };
            let window = TimedOverride {
                limits: FrequencyLimits { min: r.min_hz, max: r.max_hz },
                expires_at,
            };
            self.selection.overrides.insert(r.target_id.clone(), window);
            i = i + 1;
        }
    }

    /// Takes over a batch of manual windows.
    pub fn command_set_overrides(
        &mut self,
        requests: &Vec<FrequencyOverride>,
        ticket: u64,
        now: u64,
    )
        ensures
            final(self)@ == overrides_set(old(self)@, seq_view(requests@), ticket, now),
    {
        if let Some(e) = self.check_overrides(requests) {
            self.ask(Action::AnswerMutation { ticket, result: Err(e) });
            return;
        }
        self.put_windows(requests, now);
        self.counters.generation = self.counters.generation.saturating_add(1);
        self.ask(Action::Evaluate { then_barriers: false });
        let r = receipt(
            self.counters.generation,
            ids_of(requests),
            "frequency override batch accepted",
        );
        self.ask(Action::AnswerMutation { ticket, result: Ok(r) });
    }

    /// Clears the given windows.
    fn clear_ids(&mut self, ids: &Vec<String>, ticket: u64)
        ensures
            final(self)@ == ids_cleared(old(self)@, texts(ids@), ticket),
    {
        let changed = active_among(&self.selection.overrides, ids);
        assert(texts(changed@).len() == changed@.len());
        if changed.len() == 0 {
            let r = empty_receipt(self.counters.generation, "no matching overrides were active");
            self.ask(Action::AnswerMutation { ticket, result: Ok(r) });
            return;
        }
        remove_all(&mut self.selection.overrides, &changed);
        self.counters.generation = self.counters.generation.saturating_add(1);
        self.ask(Action::Evaluate { then_barriers: false });
        let r = receipt(self.counters.generation, changed, "frequency overrides cleared");
        self.ask(Action::AnswerMutation { ticket, result: Ok(r) });
    }

    /// Takes over the request to clear windows; an empty list means all.
    pub fn command_clear_overrides(&mut self, requested: &Vec<String>, ticket: u64)
        ensures
            final(self)@ == overrides_cleared(
                old(self)@,
                texts(requested@),
                old(self).selection.overrides.keys(),
                ticket,
            ),
    {
        assert(texts(requested@).len() == requested@.len());
        if let Err(e) = self.require_writable_actuator() {
            self.ask(Action::AnswerMutation { ticket, result: Err(e) });
            return;
        }
        if requested.len() == 0 {
            let ids = keys_of_windows(&self.selection.overrides);
            self.clear_ids(&ids, ticket);
            return;
        }
        if !are_valid(requested) {
            self.ask(
                Action::AnswerMutation {
                    ticket,
                    result: Err(RuntimeError::InvalidArgument(INVALID_TARGET_ID.to_owned())),
                },
            );
            return;
        }
        self.clear_ids(requested, ticket);
    }
}

/// An early refusal stands for the whole batch.
proof fn error_is_kept(m: Model, requests: Seq<OverrideView>, n: nat, k: nat)
    requires
        n <= k,
        batch_error(m, requests, n) is Some,
    ensures
        batch_error(m, requests, k) == batch_error(m, requests, n),
    decreases k,
{
    if n < k {
        error_is_kept(m, requests, n, (k - 1) as nat);
    }
}

/// The targets of a batch.
fn ids_of(requests: &Vec<FrequencyOverride>) -> (out: Vec<String>)
    ensures
        texts(out@) == batch_ids(seq_view(requests@)),
{
    let mut out: Vec<String> = Vec::new();
    let mut i: usize = 0;
    while i < requests.len()
        invariant
            i <= requests@.len(),
            out@.len() == i,
            forall|j: int| 0 <= j < i ==> (#[trigger] out@[j])@ == requests@[j].target_id@,
        decreases requests@.len() - i,
    {
        out.push(requests[i].target_id.clone());
        i = i + 1;
    }
    assert(texts(out@) =~= batch_ids(seq_view(requests@)));
    out
}

/// Whether every text is a target identifier.
fn are_valid(ids: &Vec<String>) -> (r: bool)
    ensures
        r == all_valid(texts(ids@)),
{
    let mut i: usize = 0;
    while i < ids.len()
        invariant
            i <= ids@.len(),
            forall|j: int| 0 <= j < i ==> valid_id(#[trigger] texts(ids@)[j]),
        decreases ids@.len() - i,
    {
        if !is_valid_id(ids[i].as_str()) {
            assert(!valid_id(texts(ids@)[i as int]));
            return false;
        }
        i = i + 1;
    }
    true
}

/// The texts that name an active window, in order.
fn active_among(overrides: &Table<TimedOverride>, ids: &Vec<String>) -> (out: Vec<String>)
    ensures
        texts(out@) == active_ids(overrides@, texts(ids@), ids@.len()),
{
    let ghost all = texts(ids@);
    let mut out: Vec<String> = Vec::new();
    let mut i: usize = 0;
    assert(texts(out@) =~= Seq::empty());
    while i < ids.len()
        invariant
            i <= ids@.len(),
            all == texts(ids@),
            texts(out@) == active_ids(overrides@, all, i as nat),
        decreases ids@.len() - i,
    {
        assert(all[i as int] == ids@[i as int]@);
        if overrides.contains(ids[i].as_str()) {
            let ghost prior = out@;
            out.push(ids[i].clone());
            assert(texts(out@) =~= texts(prior).push(all[i as int]));
        }
        i = i + 1;
    }
    out
}

/// The targets of the active windows, in order.
fn keys_of_windows(overrides: &Table<TimedOverride>) -> (out: Vec<String>)
    ensures
        texts(out@) == overrides.keys(),
{
    let n: usize = overrides.len();
    let mut out: Vec<String> = Vec::new();
    let mut i: usize = 0;
    while i < n
        invariant
            i <= n,
            n == overrides.keys().len(),
            out@.len() == i,
            forall|j: int| 0 <= j < i ==> (#[trigger] out@[j])@ == overrides.keys()[j],
        decreases n - i,
    {
        out.push(overrides.key_at(i).to_owned());
        i = i + 1;
    }
    assert(texts(out@) =~= overrides.keys());
    out
}

/// Removes the given windows.
fn remove_all(overrides: &mut Table<TimedOverride>, ids: &Vec<String>)
    ensures
        final(overrides)@ == old(overrides)@.remove_keys(texts(ids@).to_set()),
{
    let ghost start = overrides@;
    let ghost all = texts(ids@);
    let mut i: usize = 0;
    while i < ids.len()
        invariant
            i <= ids@.len(),
            all == texts(ids@),
            overrides@.submap_of(start),
            forall|k: Seq<char>| #[trigger]
                start.dom().contains(k) && !overrides@.dom().contains(k) ==> all.contains(k),
            forall|j: int| 0 <= j < i ==> !overrides@.dom().contains(#[trigger] all[j]),
        decreases ids@.len() - i,
    {
        assert(all[i as int] == ids@[i as int]@);
        assert(all.contains(all[i as int]));
        overrides.remove(ids[i].as_str());
        i = i + 1;
    }
    assert forall|k: Seq<char>| #[trigger] overrides@.dom().contains(k) implies !all.contains(k) by {
        if all.contains(k) {
            let j = choose|j: int| 0 <= j < all.len() && all[j] == k;
            assert(!overrides@.dom().contains(all[j]));
        }
    }
    assert(overrides@ =~= start.remove_keys(all.to_set()));
}

/// A batch is taken as a whole or not at all.
pub proof fn batch_is_atomic(m: Model, requests: Seq<OverrideView>, ticket: u64, now: u64)
    ensures
        ({
            let after = overrides_set(m, requests, ticket, now);
            ||| after.selection == m.selection && after.counters == m.counters
            ||| batch_error(m, requests, requests.len()) is None && after.selection.overrides
                == with_requests(m.selection.overrides, requests, requests.len(), now)
        }),
{
}

/// Every window that is taken lies inside the hardware limits of its target.
pub proof fn accepted_windows_fit_the_hardware(
    m: Model,
    requests: Seq<OverrideView>,
    i: int,
)
    requires
        set_error(m, requests) is None,
        0 <= i < requests.len(),
    ensures
        m.configuration.targets.dom().contains(requests[i].target_id),
        m.configuration.targets[requests[i].target_id].hardware_limits.min <= requests[i].min_hz,
        requests[i].min_hz <= requests[i].max_hz,
        requests[i].max_hz <= m.configuration.targets[requests[i].target_id].hardware_limits.max,
{
    all_checked(m, requests, requests.len(), i);
}

/// Where no request of a batch is refused, none is.
pub(crate) proof fn all_checked(m: Model, requests: Seq<OverrideView>, n: nat, i: int)
    requires
        batch_error(m, requests, n) is None,
        0 <= i < n,
    ensures
        override_error(m, requests, i) is None,
    decreases n,
{
    if i < n - 1 {
        all_checked(m, requests, (n - 1) as nat, i);
    }
}

/// Without trusted thermal data no manual window is taken.
pub proof fn degradation_refuses_overrides(
    m: Model,
    requests: Seq<OverrideView>,
    ticket: u64,
    now: u64,
)
    requires
        m.caps.thermal_state == ThermalState::Degraded,
    ensures
        overrides_set(m, requests, ticket, now).selection == m.selection,
{
}

/// Once a failure is latched, nothing may be mutated, with the reason of that
/// failure.
pub proof fn latched_failure_refuses_mutation(m: Model)
    requires
        m.gates.actuator is Some,
        m.gates.actuator_read_only,
        latched(m),
    ensures
        mutation_error(m) is Some,
        m.failures.restore is Some ==> mutation_error(m) == Some(
            ErrorView::Degraded(m.failures.restore->0),
        ),
{
}

} // verus!
