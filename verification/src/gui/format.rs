//! Texts, requests and choices of the desktop client.

use vstd::prelude::*;
use crate::api::{
    ActiveWorkload, ActiveWorkloadView, AppRule, AppRuleView, CapabilityView, FrequencyStatus,
    FrequencyStatusView, RunningWorkload, RunningWorkloadView, SchedulerStatus,
    SchedulerStatusView, TargetCapability, WorkloadRequest, WorkloadRequestView,
};
use crate::cpuset::{ids_ascending, CpuIds};
use crate::model::{copy_opt, seq_view};
use crate::number::{
    decimal_text, decimal_text_injective, format_i64, format_u64, parse_u32, parsed_unsigned,
    signed_text,
};
use crate::text::{
    cat2, cat3, cat4, cat5, join_texts, joined_by, opt_text, same, texts, trim, trimmed,
};
use super::i18n::{
    localized_protocol_value, protocol_value, translate, translation, Language,
};
use super::view_model::{FocusState, ReporterState};

verus! {

/// What to clear when the shown workload is cleared.
#[derive(Clone, Copy, Debug, PartialEq, Eq, Structural)]
pub enum WorkloadClearTarget {
    Explicit,
    Focus,
}

/// The request to follow a process.
pub open spec fn request_for(pid: u32) -> WorkloadRequestView {
    WorkloadRequestView { pid, mode: Seq::empty(), reason: "selected in uperf-gui"@ }
}

/// The request to follow a process. It holds only the process number: the
/// daemon finds out the rest.
pub fn workload_request(pid: u32) -> (r: WorkloadRequest)
    ensures
        r@ == request_for(pid),
{
    let r = WorkloadRequest {
        pid,
        mode: String::new(),
        reason: "selected in uperf-gui".to_owned(),
    };
    assert(r.mode@ =~= Seq::<char>::empty());
    r
}

/// The request that an entered process number stands for, or the complaint.
pub open spec fn parsed_workload(text: Seq<char>) -> Result<WorkloadRequestView, Seq<char>> {
    match parsed_unsigned(trimmed(text), u32::MAX as nat) {
        None => Err("PID must be a positive integer"@),
        Some(pid) => if pid == 0 {
            Err("PID must be non-zero"@)
        } else {
            Ok(request_for(pid as u32))
        },
    }
}

/// The request that an entered process number stands for.
pub fn parse_workload(pid: &str) -> (r: Result<WorkloadRequest, String>)
    ensures
        match r {
            Ok(w) => parsed_workload(pid@) == Ok::<WorkloadRequestView, Seq<char>>(w@),
            Err(e) => parsed_workload(pid@) == Err::<WorkloadRequestView, Seq<char>>(e@),
        },
{
    let inner = trim(pid);
    match parse_u32(inner.as_str()) {
        None => Err("PID must be a positive integer".to_owned()),
        Some(n) => if n == 0 {
            Err("PID must be non-zero".to_owned())
        } else {
            Ok(workload_request(n))
        },
    }
}

/// The icon of a focus state.
pub open spec fn icon_of(state: FocusState) -> Seq<char> {
    match state {
        FocusState::Following => "emblem-ok-symbolic"@,
        FocusState::Overridden => "media-playback-pause-symbolic"@,
        FocusState::Rejected => "dialog-warning-symbolic"@,
        FocusState::Waiting => "content-loading-symbolic"@,
        FocusState::Unsupported => "action-unavailable-symbolic"@,
    }
}

/// The icon of a focus state, from the symbolic set that every desktop has.
pub fn focus_icon(state: FocusState) -> (r: &'static str)
    ensures
        r@ == icon_of(state),
{
    match state {
        FocusState::Following => "emblem-ok-symbolic",
        FocusState::Overridden => "media-playback-pause-symbolic",
        FocusState::Rejected => "dialog-warning-symbolic",
        FocusState::Waiting => "content-loading-symbolic",
        FocusState::Unsupported => "action-unavailable-symbolic",
    }
}

/// Every focus state has an icon of its own.
pub proof fn icons_differ(a: FocusState, b: FocusState)
    requires
        a != b,
    ensures
        icon_of(a) != icon_of(b),
{
    reveal_strlit("emblem-ok-symbolic");
    reveal_strlit("media-playback-pause-symbolic");
    reveal_strlit("dialog-warning-symbolic");
    reveal_strlit("content-loading-symbolic");
    reveal_strlit("action-unavailable-symbolic");
    assert("emblem-ok-symbolic"@[0] == 'e');
    assert("media-playback-pause-symbolic"@[0] == 'm');
    assert("dialog-warning-symbolic"@[0] == 'd');
    assert("content-loading-symbolic"@[0] == 'c');
    assert("action-unavailable-symbolic"@[0] == 'a');
}

/// Whether a state looks enabled but is not, and should read as a problem.
pub fn focus_is_obstructed(state: FocusState) -> (r: bool)
    ensures
        r == (state == FocusState::Unsupported || state == FocusState::Rejected || state
            == FocusState::Overridden),
{
    match state {
        FocusState::Unsupported | FocusState::Rejected | FocusState::Overridden => true,
        _ => false,
    }
}

/// Whether a state may change without a signal, so that it is worth polling: one
/// that a user may be mending outside the client.
pub fn reporter_state_is_actionable(state: ReporterState) -> (r: bool)
    ensures
        r == (state != ReporterState::Enabled),
{
    match state {
        ReporterState::Disabled | ReporterState::Missing | ReporterState::Unknown => true,
        ReporterState::Enabled => false,
    }
}

/// A state of the reporter that runs, or is about to.
pub const STATE_ENABLED: i64 = 1;

/// A state of the reporter that runs, or is about to.
pub const STATE_ACTIVATING: i64 = 8;

/// What the shell's reply on the reporter means. An empty reply is the answer
/// for an extension that is not installed; `state` is its number, where the
/// reply has one.
pub fn classify(is_empty: bool, state: Option<i64>) -> (r: ReporterState)
    ensures
        r == (if is_empty {
            ReporterState::Missing
        } else {
            match state {
                Some(n) => if n == STATE_ENABLED || n == STATE_ACTIVATING {
                    ReporterState::Enabled
                } else {
                    ReporterState::Disabled
                },
                None => ReporterState::Unknown,
            }
        }),
{
    if is_empty {
        return ReporterState::Missing;
    }
    match state {
        Some(n) => if n == STATE_ENABLED || n == STATE_ACTIVATING {
            ReporterState::Enabled
        } else {
            ReporterState::Disabled
        },
        None => ReporterState::Unknown,
    }
}

/// What to clear for a shown workload: what its published source says.
pub open spec fn clear_target(active: ActiveWorkloadView) -> Option<WorkloadClearTarget> {
    if !active.present {
        None
    } else if active.source == "explicit"@ {
        Some(WorkloadClearTarget::Explicit)
    } else if active.source == "focus"@ {
        Some(WorkloadClearTarget::Focus)
    } else {
        None
    }
}

/// What to clear for a shown workload.
pub fn clear_target_for_workload(active: &ActiveWorkload) -> (r: Option<WorkloadClearTarget>)
    ensures
        r == clear_target(active@),
{
    if !active.present {
        return None;
    }
    if same(active.source.as_str(), "explicit") {
        Some(WorkloadClearTarget::Explicit)
    } else if same(active.source.as_str(), "focus") {
        Some(WorkloadClearTarget::Focus)
    } else {
        None
    }
}

/// The label of the button that clears the shown workload.
pub fn clear_label(language: Language, target: Option<WorkloadClearTarget>) -> (r: &'static str)
    ensures
        r@ == translation(
            language,
            match target {
                Some(WorkloadClearTarget::Explicit) => "Clear explicit workload"@,
                Some(WorkloadClearTarget::Focus) => "Clear focused workload"@,
                None => "Clear active workload"@,
            },
        ),
{
    match target {
        Some(WorkloadClearTarget::Explicit) => translate(language, "Clear explicit workload"),
        Some(WorkloadClearTarget::Focus) => translate(language, "Clear focused workload"),
        None => translate(language, "Clear active workload"),
    }
}

/// A text without surrounding white space, unless it is blank.
pub fn non_empty(value: &str) -> (r: Option<String>)
    ensures
        opt_text(r) == (if trimmed(value@).len() == 0 {
            None
        } else {
            Some(trimmed(value@))
        }),
{
    let inner = trim(value);
    if inner.as_str().is_empty() {
        None
    } else {
        Some(inner)
    }
}

/// The identifier that the client gives its rule with a number.
pub open spec fn numbered_rule(index: nat) -> Seq<char> {
    "gui.rule"@ + decimal_text(index)
}

/// Whether a rule has the identifier.
pub open spec fn rule_exists(rules: Seq<AppRuleView>, id: Seq<char>) -> bool {
    exists|i: int| 0 <= i < rules.len() && (#[trigger] rules[i]).id == id
}

/// The first identifier from `index` on that no rule has.
pub open spec fn free_rule(rules: Seq<AppRuleView>, index: nat) -> Seq<char>
    decreases u32::MAX + 1 - index,
{
    if index > u32::MAX {
        "gui.rule"@
    } else if rule_exists(rules, numbered_rule(index)) {
        free_rule(rules, index + 1)
    } else {
        numbered_rule(index)
    }
}

fn has_rule(rules: &Vec<AppRule>, id: &str) -> (r: bool)
    ensures
        r == rule_exists(seq_view(rules@), id@),
{
    let mut i: usize = 0;
    while i < rules.len()
        invariant
            i <= rules@.len(),
            forall|k: int| 0 <= k < i ==> (#[trigger] seq_view(rules@)[k]).id != id@,
        decreases rules@.len() - i,
    {
        assert(seq_view(rules@)[i as int] == rules@[i as int]@);
        if same(rules[i].id.as_str(), id) {
            return true;
        }
        i = i + 1;
    }
    false
}

/// A short identifier for a new rule: the first number that is free.
pub fn generate_rule_id(existing: &Vec<AppRule>) -> (out: String)
    ensures
        out@ == free_rule(seq_view(existing@), 1),
{
    let mut index: u64 = 1;
    while index <= u32::MAX as u64
        invariant
            1 <= index <= u32::MAX + 1,
            free_rule(seq_view(existing@), 1) == free_rule(seq_view(existing@), index as nat),
        decreases u32::MAX + 1 - index,
    {
        let number = format_u64(index);
        let candidate = cat2("gui.rule", number.as_str());
        if !has_rule(existing, candidate.as_str()) {
            return candidate;
        }
        index = index + 1;
    }
    "gui.rule".to_owned()
}

proof fn free_rule_is_new(rules: Seq<AppRuleView>, index: nat)
    requires
        exists|k: nat| index <= k <= u32::MAX && !rule_exists(rules, #[trigger] numbered_rule(k)),
    ensures
        !rule_exists(rules, free_rule(rules, index)),
        exists|k: nat| index <= k <= u32::MAX && free_rule(rules, index) == #[trigger] numbered_rule(k),
    decreases u32::MAX + 1 - index,
{
    let k = choose|k: nat| index <= k <= u32::MAX && !rule_exists(rules, #[trigger] numbered_rule(k));
    if rule_exists(rules, numbered_rule(index)) {
        assert(k != index);
        free_rule_is_new(rules, index + 1);
        let m = choose|m: nat|
            index + 1 <= m <= u32::MAX && free_rule(rules, index + 1) == #[trigger] numbered_rule(m);
        assert(free_rule(rules, index) == numbered_rule(m));
    } else {
        assert(free_rule(rules, index) == numbered_rule(index));
    }
}

/// The identifier of a new rule is none that exists, while there are fewer rules
/// than numbers.
pub proof fn generated_rule_ids_are_new(rules: Seq<AppRuleView>)
    requires
        rules.len() < u32::MAX,
    ensures
        !rule_exists(rules, free_rule(rules, 1)),
{
    if forall|k: nat| 1 <= k <= u32::MAX ==> rule_exists(rules, #[trigger] numbered_rule(k)) {
        let at = |k: int|
            choose|i: int|
                0 <= i < rules.len() && (#[trigger] rules[i]).id == numbered_rule(k as nat);
        let places = Seq::new(u32::MAX as nat, |j: int| at(j + 1));
        assert forall|j: int| 0 <= j < places.len() implies 0 <= #[trigger] places[j] < rules.len()
            && rules[places[j]].id == numbered_rule((j + 1) as nat) by {
            assert(rule_exists(rules, numbered_rule((j + 1) as nat)));
        }
        assert forall|a: int, b: int|
            0 <= a < b < places.len() implies places[a] != places[b] by {
            if places[a] == places[b] {
                let x = decimal_text((a + 1) as nat);
                let y = decimal_text((b + 1) as nat);
                assert(numbered_rule((a + 1) as nat) == numbered_rule((b + 1) as nat));
                assert(numbered_rule((a + 1) as nat).skip("gui.rule"@.len() as int) =~= x);
                assert(numbered_rule((b + 1) as nat).skip("gui.rule"@.len() as int) =~= y);
                decimal_text_injective((a + 1) as nat, (b + 1) as nat);
            }
        }
        places.unique_seq_to_set();
        let room = vstd::set_lib::set_int_range(0, rules.len() as int);
        vstd::set_lib::lemma_int_range(0, rules.len() as int);
        assert(places.to_set().subset_of(room)) by {
            assert forall|p: int| places.to_set().contains(p) implies room.contains(p) by {
                let j = choose|j: int| 0 <= j < places.len() && places[j] == p;
                assert(0 <= places[j] < rules.len());
            }
        }
        vstd::set_lib::lemma_len_subset(places.to_set(), room);
        assert(false);
    }
    free_rule_is_new(rules, 1);
}

/// A frequency as it is shown: gigahertz to two places, megahertz and hertz as
/// whole numbers.
pub open spec fn frequency_text(hz: u64) -> Seq<char> {
    if hz >= 1_000_000_000 {
        let hundredths = hz as nat / 10_000_000;
        decimal_text(hundredths / 100) + "."@ + (if hundredths % 100 < 10 {
            "0"@
        } else {
            Seq::empty()
        }) + decimal_text(hundredths % 100) + " GHz"@
    } else if hz >= 1_000_000 {
        decimal_text(hz as nat / 1_000_000) + " MHz"@
    } else {
        decimal_text(hz as nat) + " Hz"@
    }
}

/// A frequency as it is shown.
pub fn format_frequency(frequency_hz: u64) -> (out: String)
    ensures
        out@ == frequency_text(frequency_hz),
{
    if frequency_hz >= 1_000_000_000 {
        let hundredths: u64 = frequency_hz / 10_000_000;
        let whole = format_u64(hundredths / 100);
        let part = format_u64(hundredths % 100);
        let pad = if hundredths % 100 < 10 {
            "0".to_owned()
        } else {
            let none = String::new();
            assert(none@ =~= Seq::<char>::empty());
            none
        };
        cat5(whole.as_str(), ".", pad.as_str(), part.as_str(), " GHz")
    } else if frequency_hz >= 1_000_000 {
        let n = format_u64(frequency_hz / 1_000_000);
        cat2(n.as_str(), " MHz")
    } else {
        let n = format_u64(frequency_hz);
        cat2(n.as_str(), " Hz")
    }
}

/// The state of a target as it is shown in a language.
pub open spec fn status_text(language: Language, status: Option<FrequencyStatusView>) -> Seq<char> {
    match status {
        None => translation(language, "No fresh state"@),
        Some(s) => {
            let management = translation(
                language,
                if s.override_active {
                    "Manual limit active"@
                } else {
                    "Automatic control"@
                },
            );
            if s.observed_available && !s.stale {
                management + " · "@ + translation(language, "Current allowed range"@) + " "@
                    + frequency_text(s.observed_min_hz) + " – "@ + frequency_text(
                    s.observed_max_hz,
                )
            } else if s.applied_verified {
                management + " · "@ + translation(language, "Last confirmed range"@) + " "@
                    + frequency_text(s.applied_min_hz) + " – "@ + frequency_text(s.applied_max_hz)
                    + " · "@ + translation(language, "stale"@)
            } else {
                translation(language, "State unavailable · not managed"@)
            }
        },
    }
}

/// The state of a target as it is shown in a language.
pub fn target_status_text(language: Language, status: Option<&FrequencyStatus>) -> (out: String)
    ensures
        out@ == status_text(
            language,
            match status {
                Some(s) => Some(s@),
                None => None,
            },
        ),
{
    let s = match status {
        None => {
            return translate(language, "No fresh state").to_owned();
        },
        Some(s) => s,
    };
    let management = if s.override_active {
        translate(language, "Manual limit active")
    } else {
        translate(language, "Automatic control")
    };
    if s.observed_available && !s.stale {
        let low = format_frequency(s.observed_min_hz);
        let high = format_frequency(s.observed_max_hz);
        let head = cat5(
            management,
            " · ",
            translate(language, "Current allowed range"),
            " ",
            low.as_str(),
        );
        return cat3(head.as_str(), " – ", high.as_str());
    }
    if s.applied_verified {
        let low = format_frequency(s.applied_min_hz);
        let high = format_frequency(s.applied_max_hz);
        let head = cat5(
            management,
            " · ",
            translate(language, "Last confirmed range"),
            " ",
            low.as_str(),
        );
        return cat5(
            head.as_str(),
            " – ",
            high.as_str(),
            " · ",
            translate(language, "stale"),
        );
    }
    translate(language, "State unavailable · not managed").to_owned()
}

/// The window that the controls of a target start with: the one that was asked
/// for, while an override with a known window is active, else the hardware's.
pub open spec fn draft_bounds(t: CapabilityView, status: Option<FrequencyStatusView>) -> (u64, u64) {
    match status {
        Some(s) if s.override_active && s.desired_available => (s.desired_min_hz, s.desired_max_hz),
        _ => (t.minimum_hz, t.maximum_hz),
    }
}

/// The window that the controls of a target start with.
pub fn draft_frequency_bounds(target: &TargetCapability, status: Option<&FrequencyStatus>) -> (r: (
    u64,
    u64,
))
    ensures
        r == draft_bounds(
            target@,
            match status {
                Some(s) => Some(s@),
                None => None,
            },
        ),
{
    match status {
        Some(s) => if s.override_active && s.desired_available {
            (s.desired_min_hz, s.desired_max_hz)
        } else {
            (target.minimum_hz, target.maximum_hz)
        },
        None => (target.minimum_hz, target.maximum_hz),
    }
}

/// A range of CPUs as it is shown.
pub open spec fn range_text(start: u32, end: u32) -> Seq<char> {
    if start == end {
        decimal_text(start as nat)
    } else {
        decimal_text(start as nat) + "–"@ + decimal_text(end as nat)
    }
}

/// A range of CPUs as it is shown.
pub fn format_cpu_range(start: u32, end: u32) -> (out: String)
    ensures
        out@ == range_text(start, end),
{
    let a = format_u64(start as u64);
    if start == end {
        a
    } else {
        let b = format_u64(end as u64);
        cat3(a.as_str(), "–", b.as_str())
    }
}

/// The ranges of the ascending numbers before `n`: the finished ones and the
/// one that is open.
pub open spec fn ranges(ids: Seq<u32>, n: nat) -> (Seq<Seq<char>>, u32, u32)
    decreases n,
{
    if n <= 1 {
        (Seq::empty(), ids[0], ids[0])
    } else {
        let (done, start, end) = ranges(ids, (n - 1) as nat);
        let cpu = ids[n - 1];
        if cpu == end + 1 {
            (done, start, cpu)
        } else {
            (done.push(range_text(start, end)), cpu, cpu)
        }
    }
}

/// A set of CPUs as it is shown: runs of numbers as ranges.
pub open spec fn cpu_list_text(ids: Seq<u32>) -> Seq<char> {
    let (done, start, end) = ranges(ids, ids.len());
    let all = done.push(range_text(start, end));
    joined_by(all, ", "@, all.len())
}

/// CPUs as they are shown: sorted, each once, runs of numbers as ranges.
pub fn compact_cpu_list(cpus: &Vec<u32>) -> (out: String)
    requires
        cpus@.len() > 0,
    ensures
        exists|ids: Seq<u32>|
            #[trigger] ids_ascending(ids) && ids.to_set() == cpus@.to_set() && out@ == cpu_list_text(
                ids,
            ),
{
    let sorted = CpuIds::from_ids(cpus);
    let ids = sorted.to_vec();
    proof {
        assert(cpus@.to_set().contains(cpus@[0]));
        assert(ids@.to_set().contains(cpus@[0]));
        assert(ids@.len() > 0);
    }
    let mut done: Vec<String> = Vec::new();
    let mut start: u32 = ids[0];
    let mut end: u32 = start;
    let mut n: usize = 1;
    assert(texts(done@) =~= Seq::empty());
    while n < ids.len()
        invariant
            1 <= n <= ids@.len(),
            ranges(ids@, n as nat) == (texts(done@), start, end),
        decreases ids@.len() - n,
    {
        let cpu: u32 = ids[n];
        if end < u32::MAX && cpu == end + 1 {
            end = cpu;
        } else {
            let ghost before = texts(done@);
            done.push(format_cpu_range(start, end));
            assert(texts(done@) =~= before.push(range_text(start, end)));
            start = cpu;
            end = cpu;
        }
        n = n + 1;
    }
    let ghost before = texts(done@);
    done.push(format_cpu_range(start, end));
    assert(texts(done@) =~= before.push(range_text(start, end)));
    assert(texts(done@).len() == done@.len());
    let out = join_texts(&done, ", ");
    assert(ids_ascending(ids@));
    out
}

/// Whether a text is the name that is shown for a target.
pub open spec fn is_display_name(t: CapabilityView, name: Seq<char>) -> bool {
    if t.kind == "cpufreq"@ && t.cpus.len() > 0 {
        exists|ids: Seq<u32>|
            #[trigger] ids_ascending(ids) && ids.to_set() == t.cpus.to_set() && name == "CPU "@
                + cpu_list_text(ids)
    } else if t.id == "gpu"@ {
        name == "GPU"@
    } else {
        name == t.label
    }
}

/// The name that is shown for a target.
pub fn target_display_name(target: &TargetCapability) -> (out: String)
    ensures
        is_display_name(target@, out@),
{
    if same(target.kind.as_str(), "cpufreq") && target.cpus.len() > 0 {
        let list = compact_cpu_list(&target.cpus);
        let out = cat2("CPU ", list.as_str());
        proof {
            let ids = choose|ids: Seq<u32>|
                #[trigger] ids_ascending(ids) && ids.to_set() == target.cpus@.to_set() && list@
                    == cpu_list_text(ids);
            assert(ids_ascending(ids) && out@ == "CPU "@ + cpu_list_text(ids));
        }
        return out;
    }
    if same(target.id.as_str(), "gpu") {
        return "GPU".to_owned();
    }
    target.label.as_str().to_owned()
}

/// The position that stands for no selection.
pub const INVALID_LIST_POSITION: u32 = u32::MAX;

/// How far two frequencies are apart.
pub open spec fn distance(a: u64, b: u64) -> int {
    if a >= b {
        a - b
    } else {
        b - a
    }
}

/// The first of the first `n` choices that is nearest to a frequency.
pub open spec fn nearest(choices: Seq<u64>, requested: u64, n: nat) -> int
    decreases n,
{
    if n <= 1 {
        0
    } else {
        let best = nearest(choices, requested, (n - 1) as nat);
        if distance(choices[n - 1], requested) < distance(choices[best], requested) {
            n - 1
        } else {
            best
        }
    }
}

fn apart(a: u64, b: u64) -> (r: u64)
    ensures
        r == distance(a, b),
{
    if a >= b {
        a - b
    } else {
        b - a
    }
}

/// The position of the first choice that is nearest to a frequency.
pub fn closest_index(choices: &Vec<u64>, requested: u64) -> (r: u32)
    ensures
        r == (if choices@.len() == 0 || nearest(choices@, requested, choices@.len()) > u32::MAX {
            INVALID_LIST_POSITION as int
        } else {
            nearest(choices@, requested, choices@.len())
        }),
{
    if choices.len() == 0 {
        return INVALID_LIST_POSITION;
    }
    let mut best: usize = 0;
    let mut n: usize = 1;
    while n < choices.len()
        invariant
            1 <= n <= choices@.len(),
            best < n,
            best == nearest(choices@, requested, n as nat),
        decreases choices@.len() - n,
    {
        if apart(choices[n], requested) < apart(choices[best], requested) {
            best = n;
        }
        n = n + 1;
    }
    if best as u64 > u32::MAX as u64 {
        INVALID_LIST_POSITION
    } else {
        best as u32
    }
}

/// No choice is nearer to a frequency than the one that is picked.
pub proof fn nearest_is_nearest(choices: Seq<u64>, requested: u64, n: nat, i: int)
    requires
        0 <= i < n <= choices.len(),
    ensures
        0 <= nearest(choices, requested, n) < n,
        distance(choices[nearest(choices, requested, n)], requested) <= distance(
            choices[i],
            requested,
        ),
    decreases n,
{
    if n > 1 {
        nearest_is_nearest(
            choices,
            requested,
            (n - 1) as nat,
            if i < n - 1 {
                i
            } else {
                0
            },
        );
    }
}

/// A pause as it is shown in a language.
pub open spec fn delay_text(language: Language, milliseconds: u64) -> Seq<char> {
    if milliseconds < 1_000 {
        decimal_text(milliseconds as nat) + " "@ + translation(language, "ms"@)
    } else {
        decimal_text(milliseconds as nat / 1_000) + " "@ + translation(language, "s"@)
    }
}

/// A pause as it is shown in a language.
pub fn format_retry_delay(language: Language, milliseconds: u64) -> (out: String)
    ensures
        out@ == delay_text(language, milliseconds),
{
    if milliseconds < 1_000 {
        let n = format_u64(milliseconds);
        cat3(n.as_str(), " ", translate(language, "ms"))
    } else {
        let n = format_u64(milliseconds / 1_000);
        cat3(n.as_str(), " ", translate(language, "s"))
    }
}

/// The load of a CPU as it is shown: whole per cent, a tie to the even number.
pub open spec fn load_text(basis_points: u16) -> Seq<char> {
    let whole = basis_points as nat / 100;
    let rest = basis_points as nat % 100;
    decimal_text(
        if rest > 50 || (rest == 50 && whole % 2 == 1) {
            whole + 1
        } else {
            whole
        },
    ) + " %"@
}

/// The load of a CPU as it is shown.
pub fn format_load(basis_points: u16) -> (out: String)
    ensures
        out@ == load_text(basis_points),
{
    let whole: u64 = basis_points as u64 / 100;
    let rest: u64 = basis_points as u64 % 100;
    let shown: u64 = if rest > 50 || (rest == 50 && whole % 2 == 1) {
        whole + 1
    } else {
        whole
    };
    let n = format_u64(shown);
    cat2(n.as_str(), " %")
}

/// What the scheduler does, as it is shown in a language.
pub open spec fn scheduler_text(language: Language, s: SchedulerStatusView) -> Seq<char> {
    if !s.enabled {
        translation(language, "Disabled by policy"@)
    } else if s.matched_rule.len() == 0 {
        if s.warning.len() == 0 {
            translation(language, "Pending or no matching scheduler rule"@)
        } else {
            translation(language, "No applied rule"@) + " · "@ + s.warning
        }
    } else {
        let text = translation(language, "Rule"@) + " "@ + s.matched_rule + " · "@ + decimal_text(
            s.applied_tasks as nat,
        ) + "/"@ + decimal_text(s.managed_tasks as nat) + " "@ + translation(
            language,
            "tasks applied"@,
        );
        if s.warning.len() == 0 {
            text
        } else {
            text + " · "@ + s.warning
        }
    }
}

/// What the scheduler does, as it is shown in a language.
pub fn scheduler_status_text(language: Language, status: &SchedulerStatus) -> (out: String)
    ensures
        out@ == scheduler_text(language, status@),
{
    if !status.enabled {
        return translate(language, "Disabled by policy").to_owned();
    }
    if status.matched_rule.as_str().is_empty() {
        return if status.warning.as_str().is_empty() {
            translate(language, "Pending or no matching scheduler rule").to_owned()
        } else {
            cat3(translate(language, "No applied rule"), " · ", status.warning.as_str())
        };
    }
    let applied = format_u64(status.applied_tasks as u64);
    let managed = format_u64(status.managed_tasks as u64);
    let head = cat5(
        translate(language, "Rule"),
        " ",
        status.matched_rule.as_str(),
        " · ",
        applied.as_str(),
    );
    let text = cat5(
        head.as_str(),
        "/",
        managed.as_str(),
        " ",
        translate(language, "tasks applied"),
    );
    if status.warning.as_str().is_empty() {
        text
    } else {
        cat3(text.as_str(), " · ", status.warning.as_str())
    }
}

/// What the unit of a workload is, as it is shown in a language.
pub open spec fn cgroup_text(language: Language, s: SchedulerStatusView) -> Seq<char> {
    let state = translation(
        language,
        if s.cgroup_applied {
            "applied"@
        } else {
            "not applied"@
        },
    );
    if !s.enabled {
        translation(language, "Disabled by policy"@)
    } else if s.systemd_unit.len() == 0 {
        if s.cgroup_class.len() == 0 {
            translation(language, "No dedicated unit selected"@)
        } else {
            translation(language, "Class"@) + " "@ + s.cgroup_class + " · "@ + translation(
                language,
                "no dedicated unit"@,
            )
        }
    } else if s.cgroup_class.len() == 0 {
        s.systemd_unit + " · "@ + state
    } else {
        translation(language, "Class"@) + " "@ + s.cgroup_class + " · "@ + s.systemd_unit + " · "@
            + state
    }
}

/// What the unit of a workload is, as it is shown in a language.
pub fn cgroup_status_text(language: Language, status: &SchedulerStatus) -> (out: String)
    ensures
        out@ == cgroup_text(language, status@),
{
    if !status.enabled {
        return translate(language, "Disabled by policy").to_owned();
    }
    let class = status.cgroup_class.as_str();
    let unit = status.systemd_unit.as_str();
    if unit.is_empty() {
        return if class.is_empty() {
            translate(language, "No dedicated unit selected").to_owned()
        } else {
            cat5(
                translate(language, "Class"),
                " ",
                class,
                " · ",
                translate(language, "no dedicated unit"),
            )
        };
    }
    let state = if status.cgroup_applied {
        translate(language, "applied")
    } else {
        translate(language, "not applied")
    };
    if class.is_empty() {
        cat3(unit, " · ", state)
    } else {
        let head = cat5(translate(language, "Class"), " ", class, " · ", unit);
        cat3(head.as_str(), " · ", state)
    }
}

/// The line below a running workload in a language.
pub open spec fn workload_line(language: Language, w: RunningWorkloadView) -> Seq<char> {
    let source = if w.matched_pattern == "active"@ {
        translation(language, "explicit active workload"@)
    } else {
        translation(language, "matched"@) + " "@ + w.matched_pattern
    };
    let head = "PID "@ + decimal_text(w.identity.pid as nat) + " · "@ + source;
    let scheduler = scheduler_text(language, w.scheduler);
    if !w.active {
        head
    } else if scheduler == translation(language, "No active workload"@) {
        head + " · "@ + translation(language, "active"@)
    } else {
        head + " · "@ + translation(language, "active"@) + " · "@ + scheduler
    }
}

/// The line below a running workload in a language.
pub fn running_workload_subtitle(language: Language, workload: &RunningWorkload) -> (out: String)
    ensures
        out@ == workload_line(language, workload@),
{
    let source = if same(workload.matched_pattern.as_str(), "active") {
        translate(language, "explicit active workload").to_owned()
    } else {
        cat3(translate(language, "matched"), " ", workload.matched_pattern.as_str())
    };
    let pid = format_u64(workload.identity.pid as u64);
    let head = cat4("PID ", pid.as_str(), " · ", source.as_str());
    if !workload.active {
        return head;
    }
    let scheduler = scheduler_status_text(language, &workload.scheduler);
    let line = cat3(head.as_str(), " · ", translate(language, "active"));
    if same(scheduler.as_str(), translate(language, "No active workload")) {
        line
    } else {
        cat3(line.as_str(), " · ", scheduler.as_str())
    }
}

/// The line that shows the active workload in a language.
pub open spec fn active_line(language: Language, a: ActiveWorkloadView) -> Seq<char> {
    if !a.present {
        translation(language, "None"@)
    } else {
        let head = a.name + " · "@ + "PID "@ + decimal_text(a.identity.pid as nat) + " · "@
            + protocol_value(language, a.effective_mode);
        if a.source.len() == 0 {
            head
        } else {
            head + " · "@ + translation(language, "Source"@) + ": "@ + protocol_value(
                language,
                a.source,
            )
        }
    }
}

/// The line that shows the active workload in a language.
pub fn active_workload_line(language: Language, active: &ActiveWorkload) -> (out: String)
    ensures
        out@ == active_line(language, active@),
{
    if !active.present {
        return translate(language, "None").to_owned();
    }
    let pid = format_u64(active.identity.pid as u64);
    let mode = localized_protocol_value(language, active.effective_mode.as_str());
    let start = cat5(active.name.as_str(), " · ", "PID ", pid.as_str(), " · ");
    let head = cat2(start.as_str(), mode.as_str());
    if active.source.as_str().is_empty() {
        head
    } else {
        let source = localized_protocol_value(language, active.source.as_str());
        cat5(head.as_str(), " · ", translate(language, "Source"), ": ", source.as_str())
    }
}

/// What a rule matches, as it is shown in a language.
pub open spec fn matcher(language: Language, r: AppRuleView) -> Seq<char> {
    match (r.executable, r.comm_regex) {
        (Some(exe), Some(comm)) => exe + " · /"@ + comm + "/"@,
        (Some(exe), None) => exe,
        (None, Some(comm)) => "/"@ + comm + "/"@,
        (None, None) => translation(language, "any process"@),
    }
}

/// What a rule matches, as it is shown in a language.
pub fn matcher_text(language: Language, rule: &AppRule) -> (out: String)
    ensures
        out@ == matcher(language, rule@),
{
    match (&rule.executable, &rule.comm_regex) {
        (Some(exe), Some(comm)) => cat4(exe.as_str(), " · /", comm.as_str(), "/"),
        (Some(exe), None) => exe.as_str().to_owned(),
        (None, Some(comm)) => cat3("/", comm.as_str(), "/"),
        (None, None) => translate(language, "any process").to_owned(),
    }
}

/// The rule that is made of what was entered, under a name of its own.
pub open spec fn rule_of(
    executable: Seq<char>,
    comm_regex: Seq<char>,
    mode: Seq<char>,
    existing: Seq<AppRuleView>,
) -> AppRuleView {
    AppRuleView {
        id: free_rule(existing, 1),
        enabled: true,
        owner_uid: u32::MAX,
        executable: if trimmed(executable).len() == 0 {
            None
        } else {
            Some(trimmed(executable))
        },
        comm_regex: if trimmed(comm_regex).len() == 0 {
            None
        } else {
            Some(trimmed(comm_regex))
        },
        mode,
        priority: 10,
    }
}

/// The rule that the entered fields make, or the complaint. It applies to every
/// user and outranks the default priority.
pub fn new_rule(
    executable: &str,
    comm_regex: &str,
    mode_ids: &Vec<String>,
    selected: u32,
    existing: &Vec<AppRule>,
) -> (r: Result<AppRule, &'static str>)
    ensures
        match r {
            Ok(rule) => {
                &&& trimmed(executable@).len() > 0 || trimmed(comm_regex@).len() > 0
                &&& selected < mode_ids@.len()
                &&& rule@ == rule_of(
                    executable@,
                    comm_regex@,
                    mode_ids@[selected as int]@,
                    seq_view(existing@),
                )
            },
            Err(e) => if trimmed(executable@).len() == 0 && trimmed(comm_regex@).len() == 0 {
                e@ == "Provide an executable path or a process-name regex"@
            } else {
                selected >= mode_ids@.len() && e@ == "Select a mode for the rule"@
            },
        },
{
    let executable = non_empty(executable);
    let comm_regex = non_empty(comm_regex);
    if executable.is_none() && comm_regex.is_none() {
        return Err("Provide an executable path or a process-name regex");
    }
    if selected as usize >= mode_ids.len() {
        return Err("Select a mode for the rule");
    }
    let mode = mode_ids[selected as usize].as_str().to_owned();
    Ok(
        AppRule {
            id: generate_rule_id(existing),
            enabled: true,
            owner_uid: u32::MAX,
            executable,
            comm_regex,
            mode,
            priority: 10,
        },
    )
}

/// The window that the two selected positions stand for, or the complaint.
pub fn selected_window(choices: &Vec<u64>, minimum: u32, maximum: u32) -> (r: Result<
    (u64, u64),
    &'static str,
>)
    ensures
        match r {
            Ok(w) => {
                &&& minimum < choices@.len() && maximum < choices@.len()
                &&& w == (choices@[minimum as int], choices@[maximum as int])
            },
            Err(e) => if minimum >= choices@.len() {
                e@ == "Select a minimum frequency"@
            } else {
                maximum >= choices@.len() && e@ == "Select a maximum frequency"@
            },
        },
{
    if minimum as usize >= choices.len() {
        return Err("Select a minimum frequency");
    }
    if maximum as usize >= choices.len() {
        return Err("Select a maximum frequency");
    }
    Ok((choices[minimum as usize], choices[maximum as usize]))
}

/// The line below a rule in a language.
pub fn rule_line(language: Language, rule: &AppRule) -> (out: String)
    ensures
        out@ == matcher(language, rule@) + " · "@ + translation(language, "priority"@) + " "@
            + signed_text(rule@.priority as int),
{
    let text = matcher_text(language, rule);
    let number = format_i64(rule.priority as i64);
    cat5(text.as_str(), " · ", translate(language, "priority"), " ", number.as_str())
}

/// A copy of a rule.
fn copy_rule(rule: &AppRule) -> (out: AppRule)
    ensures
        out@ == rule@,
{
    AppRule {
        id: rule.id.as_str().to_owned(),
        enabled: rule.enabled,
        owner_uid: rule.owner_uid,
        executable: copy_opt(&rule.executable),
        comm_regex: copy_opt(&rule.comm_regex),
        mode: rule.mode.as_str().to_owned(),
        priority: rule.priority,
    }
}

/// The rule with the selected mode, unless there is none or it has it already.
pub fn rule_with_mode(rule: &AppRule, mode_ids: &Vec<String>, selected: u32) -> (r: Option<AppRule>)
    ensures
        match r {
            Some(updated) => {
                &&& selected < mode_ids@.len()
                &&& mode_ids@[selected as int]@ != rule@.mode
                &&& updated@ == (AppRuleView { mode: mode_ids@[selected as int]@, ..rule@ })
            },
            None => selected >= mode_ids@.len() || mode_ids@[selected as int]@ == rule@.mode,
        },
{
    if selected as usize >= mode_ids.len() {
        return None;
    }
    let mode = mode_ids[selected as usize].as_str();
    if same(mode, rule.mode.as_str()) {
        return None;
    }
    let mut updated = copy_rule(rule);
    updated.mode = mode.to_owned();
    Some(updated)
}

/// The rule switched on or off, unless it is so already.
pub fn rule_with_enabled(rule: &AppRule, enabled: bool) -> (r: Option<AppRule>)
    ensures
        match r {
            Some(updated) => enabled != rule@.enabled && updated@ == (AppRuleView {
                enabled,
                ..rule@
            }),
            None => enabled == rule@.enabled,
        },
{
    if enabled == rule.enabled {
        return None;
    }
    let mut updated = copy_rule(rule);
    updated.enabled = enabled;
    Some(updated)
}

/// The first position of a mode from `k` on.
pub open spec fn mode_place(ids: Seq<Seq<char>>, mode: Seq<char>, k: int) -> Option<int>
    decreases ids.len() - k,
{
    if k < 0 || k >= ids.len() {
        None
    } else if ids[k] == mode {
        Some(k)
    } else {
        mode_place(ids, mode, k + 1)
    }
}

/// The position of a mode among those that the daemon offers.
pub fn mode_position(mode_ids: &Vec<String>, mode: &str) -> (r: Option<u32>)
    ensures
        match r {
            Some(n) => mode_place(texts(mode_ids@), mode@, 0) == Some(n as int),
            None => match mode_place(texts(mode_ids@), mode@, 0) {
                Some(k) => k > u32::MAX,
                None => true,
            },
        },
{
    let ghost ids = texts(mode_ids@);
    let mut k: usize = 0;
    while k < mode_ids.len()
        invariant
            k <= mode_ids@.len(),
            ids == texts(mode_ids@),
            mode_place(ids, mode@, 0) == mode_place(ids, mode@, k as int),
        decreases mode_ids@.len() - k,
    {
        assert(ids[k as int] == mode_ids@[k as int]@);
        if same(mode_ids[k].as_str(), mode) {
            return if k as u64 > u32::MAX as u64 {
                None
            } else {
                Some(k as u32)
            };
        }
        k = k + 1;
    }
    None
}

/// The first active workload from `k` on.
pub open spec fn first_active(v: Seq<RunningWorkloadView>, k: int) -> Option<RunningWorkloadView>
    decreases v.len() - k,
{
    if k < 0 || k >= v.len() {
        None
    } else if v[k].active {
        Some(v[k])
    } else {
        first_active(v, k + 1)
    }
}

/// What the scheduler does and what the unit is, of the active workload.
pub fn active_lines(language: Language, workloads: &Vec<RunningWorkload>) -> (r: (String, String))
    ensures
        match first_active(seq_view(workloads@), 0) {
            Some(w) => r.0@ == scheduler_text(language, w.scheduler) && r.1@ == cgroup_text(
                language,
                w.scheduler,
            ),
            None => r.0@ == translation(language, "No active workload"@) && r.1@ == r.0@,
        },
{
    let ghost v = seq_view(workloads@);
    let mut k: usize = 0;
    while k < workloads.len()
        invariant
            k <= workloads@.len(),
            v == seq_view(workloads@),
            first_active(v, 0) == first_active(v, k as int),
        decreases workloads@.len() - k,
    {
        assert(v[k as int] == workloads@[k as int]@);
        if workloads[k].active {
            let scheduler = &workloads[k].scheduler;
            return (
                scheduler_status_text(language, scheduler),
                cgroup_status_text(language, scheduler),
            );
        }
        k = k + 1;
    }
    let none = translate(language, "No active workload");
    (none.to_owned(), none.to_owned())
}

/// The question before a window is applied, in a language.
pub fn confirmation_text(language: Language, display_name: &str, min_hz: u64, max_hz: u64) -> (out:
    String)
    ensures
        out@ == display_name@ + ": "@ + frequency_text(min_hz) + " – "@ + frequency_text(max_hz)
            + ". "@ + translation(
            language,
            "The kernel still selects the actual frequency, while thermal and hardware limits remain authoritative."@,
        ),
{
    let low = format_frequency(min_hz);
    let high = format_frequency(max_hz);
    let head = cat5(display_name, ": ", low.as_str(), " – ", high.as_str());
    cat3(
        head.as_str(),
        ". ",
        translate(
            language,
            "The kernel still selects the actual frequency, while thermal and hardware limits remain authoritative.",
        ),
    )
}

} // verus!
