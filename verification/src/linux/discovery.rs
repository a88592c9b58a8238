//! Hardware discovery: what the kernel's files say of frequency targets,
//! thermal zones, input devices and the board.

use vstd::prelude::*;
use vstd::utf8::encode_utf8;
use crate::cpuset::CpuIds;
use crate::daemon::overrides::{INVALID_TARGET_ID, REVERSED_WINDOW};
use crate::model::{
    is_id_char, is_valid_id, char_in_id, seq_view, valid_id, FrequencyLimits, ThermalReading,
    ID_MAX_LEN,
};
use crate::number::{
    decimal_text, decimal_text_reads_back, digit_char, format_hex, format_u64, hex_text, is_digits,
    parse_u32, parse_u64, parsed_unsigned, unsigned_error, unsigned_error_text,
};
use crate::order::{ascending, ascending_is_of, ascending_of, sorted_distinct};
use crate::paths::{join, joined};
use crate::platform::{
    malformed, IoFailure, IoKind, PlatformError, PlatformErrorView, PlatformResult,
};
use crate::table::Table;
use crate::text::{
    cat2, cat4, chars_of, lines_of, lists, opt_text, pieces, string_of, strip_prefix, texts,
    without_prefix, Divider, nonempty,
};
use super::devices::{CandidateView, DevfreqCandidate};
use super::formats::{
    columns_of, compatible_names, cpu_set, first_columns, first_compatible, fnv, frequency_list,
    normalize_opps, offered, parse_compatible, parse_cpu_set, parse_frequency_list,
    stable_path_hash,
};

verus! {

/// The lowest temperature that is believed, in thousandths of a degree.
pub const MIN_PLAUSIBLE_TEMPERATURE: i64 = -40_000;

/// The highest temperature that is believed, in thousandths of a degree.
pub const MAX_PLAUSIBLE_TEMPERATURE: i64 = 200_000;

/// Files needed to observe and change one frequency target. They come from the
/// kernel's own listing, never from a request.
#[derive(Debug, PartialEq, Eq)]
pub struct FrequencyTargetPaths {
    pub id: String,
    pub minimum: String,
    pub maximum: String,
    pub current: String,
    /// Number of hertz that one unit in these files stands for.
    pub hertz_per_unit: u64,
}

/// The view of [`FrequencyTargetPaths`].
pub struct TargetPathsView {
    pub id: Seq<char>,
    pub minimum: Seq<char>,
    pub maximum: Seq<char>,
    pub current: Seq<char>,
    pub hertz_per_unit: u64,
}

impl View for FrequencyTargetPaths {
    type V = TargetPathsView;

    open spec fn view(&self) -> TargetPathsView {
        TargetPathsView {
            id: self.id@,
            minimum: self.minimum@,
            maximum: self.maximum@,
            current: self.current@,
            hertz_per_unit: self.hertz_per_unit,
        }
    }
}

/// A CPU frequency policy.
#[derive(Debug)]
pub struct CpuPolicyCapability {
    pub id: String,
    pub policy_name: String,
    pub cpus: CpuIds,
    pub limits: FrequencyLimits,
    pub available_frequencies: Vec<u64>,
    pub governor: Option<String>,
}

/// The view of [`CpuPolicyCapability`].
pub struct PolicyView {
    pub id: Seq<char>,
    pub policy_name: Seq<char>,
    pub cpus: Set<u32>,
    pub limits: FrequencyLimits,
    pub available_frequencies: Seq<u64>,
    pub governor: Option<Seq<char>>,
}

impl View for CpuPolicyCapability {
    type V = PolicyView;

    open spec fn view(&self) -> PolicyView {
        PolicyView {
            id: self.id@,
            policy_name: self.policy_name@,
            cpus: self.cpus@,
            limits: self.limits,
            available_frequencies: self.available_frequencies@,
            governor: opt_text(self.governor),
        }
    }
}

/// A device with its own frequency control.
#[derive(Debug)]
pub struct DevfreqCapability {
    pub id: String,
    pub device_name: String,
    pub compatible: Vec<String>,
    pub limits: FrequencyLimits,
    pub available_frequencies: Vec<u64>,
    pub governor: Option<String>,
}

/// The view of [`DevfreqCapability`].
pub struct DevfreqView {
    pub id: Seq<char>,
    pub device_name: Seq<char>,
    pub compatible: Seq<Seq<char>>,
    pub limits: FrequencyLimits,
    pub available_frequencies: Seq<u64>,
    pub governor: Option<Seq<char>>,
}

impl View for DevfreqCapability {
    type V = DevfreqView;

    open spec fn view(&self) -> DevfreqView {
        DevfreqView {
            id: self.id@,
            device_name: self.device_name@,
            compatible: texts(self.compatible@),
            limits: self.limits,
            available_frequencies: self.available_frequencies@,
            governor: opt_text(self.governor),
        }
    }
}

/// A thermal zone.
#[derive(Debug)]
pub struct ThermalZoneCapability {
    pub id: String,
    pub zone_type: String,
    pub current: Option<ThermalReading>,
}

/// The view of [`ThermalZoneCapability`].
pub struct ZoneView {
    pub id: Seq<char>,
    pub zone_type: Seq<char>,
    pub current: Option<ThermalReading>,
}

impl View for ThermalZoneCapability {
    type V = ZoneView;

    open spec fn view(&self) -> ZoneView {
        ZoneView { id: self.id@, zone_type: self.zone_type@, current: self.current }
    }
}

/// An input device.
#[derive(Debug)]
pub struct InputDeviceCapability {
    pub id: String,
    pub name: String,
    pub multi_touch: bool,
}

/// The view of [`InputDeviceCapability`].
pub struct InputView {
    pub id: Seq<char>,
    pub name: Seq<char>,
    pub multi_touch: bool,
}

impl View for InputDeviceCapability {
    type V = InputView;

    open spec fn view(&self) -> InputView {
        InputView { id: self.id@, name: self.name@, multi_touch: self.multi_touch }
    }
}

/// What a device offers.
#[derive(Debug)]
pub struct DeviceCapabilities {
    pub device_name: Option<String>,
    pub compatible: Vec<String>,
    pub cpu_policies: Vec<CpuPolicyCapability>,
    pub devfreq_targets: Vec<DevfreqCapability>,
    pub thermal_zones: Vec<ThermalZoneCapability>,
    pub input_devices: Vec<InputDeviceCapability>,
}

/// Hardware discovery with the private registry of its files.
#[derive(Debug)]
pub struct LinuxDiscovery {
    pub capabilities: DeviceCapabilities,
    pub frequency_targets: Table<FrequencyTargetPaths>,
    /// Exact logical sysfs directory for each thermal zone. Clients select
    /// logical sensors; only configuration may pin one to a path.
    pub thermal_zone_paths: Table<String>,
    pub warnings: Vec<String>,
}

/// An entry of a listed directory.
#[derive(Debug)]
pub enum Entry {
    Named(String),
    /// The name is no text.
    Unnamed,
    Unreadable(IoFailure),
}

/// The entries among the first `n` whose names are the prefix and a number,
/// with that number; the first unreadable one decides.
pub open spec fn prefixed_entries(all: Seq<Entry>, n: nat, prefix: Seq<char>) -> Result<
    Seq<(u32, Seq<char>)>,
    PlatformErrorView,
>
    decreases n,
{
    if n == 0 {
        Ok(Seq::empty())
    } else {
        match prefixed_entries(all, (n - 1) as nat, prefix) {
            Err(e) => Err(e),
            Ok(before) => match all[n - 1] {
                Entry::Unreadable(e) => Err(
                    PlatformErrorView::Io {
                        operation: "read directory entry"@,
                        path: prefix,
                        source: e@,
                    },
                ),
                Entry::Unnamed => Ok(before),
                Entry::Named(name) => match without_prefix(name@, prefix) {
                    None => Ok(before),
                    Some(suffix) => match parsed_unsigned(suffix, u32::MAX as nat) {
                        None => Ok(before),
                        Some(index) => Ok(before.push((index as u32, name@))),
                    },
                },
            },
        }
    }
}

proof fn entries_error_stands(all: Seq<Entry>, n: nat, k: nat, prefix: Seq<char>)
    requires
        n <= k,
        prefixed_entries(all, n, prefix) is Err,
    ensures
        prefixed_entries(all, k, prefix) == prefixed_entries(all, n, prefix),
    decreases k,
{
    if n < k {
        entries_error_stands(all, n, (k - 1) as nat, prefix);
    }
}

/// Numbered names as the model has them.
pub open spec fn numbered(v: Seq<(u32, String)>) -> Seq<(u32, Seq<char>)> {
    Seq::new(v.len(), |i: int| (v[i].0, v[i].1@))
}

/// The entries whose names are the prefix and a number.
pub fn collect_prefixed(entries: Vec<Entry>, prefix: &str) -> (r: PlatformResult<
    Vec<(u32, String)>,
>)
    ensures
        match r {
            Ok(v) => prefixed_entries(entries@, entries@.len(), prefix@) == Ok::<
                Seq<(u32, Seq<char>)>,
                PlatformErrorView,
            >(numbered(v@)),
            Err(e) => prefixed_entries(entries@, entries@.len(), prefix@) == Err::<
                Seq<(u32, Seq<char>)>,
                PlatformErrorView,
            >(e@),
        },
{
    let ghost all = entries@;
    let mut left = entries;
    let mut out: Vec<(u32, String)> = Vec::new();
    let mut n: Ghost<nat> = Ghost(0nat);
    assert(left@ =~= all.skip(0));
    assert(numbered(out@) =~= Seq::empty());
    while left.len() > 0
        invariant
            n@ <= all.len(),
            all == entries@,
            left@ == all.skip(n@ as int),
            prefixed_entries(all, n@, prefix@) == Ok::<Seq<(u32, Seq<char>)>, PlatformErrorView>(
                numbered(out@),
            ),
        decreases left@.len(),
    {
        let entry = left.remove(0);
        assert(entry == all[n@ as int]);
        match entry {
            Entry::Unreadable(e) => {
                proof {
                    entries_error_stands(all, n@ + 1, all.len(), prefix@);
                }
                return Err(PlatformError::io("read directory entry", prefix, e));
            },
            Entry::Unnamed => {},
            Entry::Named(name) => {
                if let Some(suffix) = strip_prefix(name.as_str(), prefix) {
                    if let Some(index) = parse_u32(suffix.as_str()) {
                        let ghost prior = numbered(out@);
                        let ghost added = (index, name@);
                        out.push((index, name));
                        assert(numbered(out@) =~= prior.push(added));
                    }
                }
            },
        }
        n = Ghost(n@ + 1);
        assert(left@ =~= all.skip(n@ as int));
    }
    Ok(out)
}

/// Where a numbered name goes among sorted ones: before the first from `k` on
/// with a greater number.
pub open spec fn numbered_place(v: Seq<(u32, Seq<char>)>, x: u32, k: nat) -> nat
    decreases v.len() - k,
{
    if k >= v.len() || x < v[k as int].0 {
        k
    } else {
        numbered_place(v, x, k + 1)
    }
}

/// The first `n` numbered names in ascending order; equal numbers keep their
/// order.
pub open spec fn numbered_sorted(all: Seq<(u32, Seq<char>)>, n: nat) -> Seq<(u32, Seq<char>)>
    decreases n,
{
    if n == 0 {
        Seq::empty()
    } else {
        let before = numbered_sorted(all, (n - 1) as nat);
        before.insert(numbered_place(before, all[n - 1].0, 0) as int, all[n - 1])
    }
}

/// Sorts numbered names.
fn sort_numbered(all: Vec<(u32, String)>) -> (out: Vec<(u32, String)>)
    ensures
        numbered(out@) == numbered_sorted(numbered(all@), all@.len()),
{
    let ghost v = numbered(all@);
    let mut left = all;
    let mut out: Vec<(u32, String)> = Vec::new();
    let mut n: Ghost<nat> = Ghost(0nat);
    assert(numbered(out@) =~= Seq::empty());
    assert(numbered(left@) =~= v.skip(0));
    while left.len() > 0
        invariant
            n@ <= v.len(),
            v.len() == all@.len(),
            v == numbered(all@),
            numbered(left@) == v.skip(n@ as int),
            numbered(out@) == numbered_sorted(v, n@),
        decreases left@.len(),
    {
        assert(numbered(left@).len() == left@.len());
        assert(numbered(left@)[0] == (left@[0].0, left@[0].1@));
        let ghost before_left = left@;
        let x = left.remove(0);
        let ghost before = numbered(out@);
        assert(before.len() == out@.len());
        let mut k: usize = 0;
        while k < out.len() && !(x.0 < out[k].0)
            invariant
                k <= out@.len(),
                before == numbered(out@),
                numbered_place(before, x.0, 0) == numbered_place(before, x.0, k as nat),
            decreases out@.len() - k,
        {
            assert(before[k as int].0 == out@[k as int].0);
            k = k + 1;
        }
        proof {
            if k < out@.len() {
                assert(before[k as int].0 == out@[k as int].0);
            }
        }
        let ghost added = (x.0, x.1@);
        out.insert(k, x);
        assert(numbered(out@) =~= before.insert(k as int, added));
        n = Ghost(n@ + 1);
        assert(numbered(left@) =~= numbered(before_left).skip(1));
        assert(numbered(left@) =~= v.skip(n@ as int));
    }
    out
}

/// The numbered names of a directory in the order of their numbers. A missing
/// directory has none.
pub open spec fn numbered_names(
    operation: Seq<char>,
    directory: Seq<char>,
    prefix: Seq<char>,
    listing: Result<Vec<Entry>, IoFailure>,
) -> Result<Seq<(u32, Seq<char>)>, PlatformErrorView> {
    match listing {
        Err(e) => if e.kind == IoKind::NotFound {
            Ok(Seq::empty())
        } else {
            Err(PlatformErrorView::Io { operation, path: directory, source: e@ })
        },
        Ok(entries) => match prefixed_entries(entries@, entries@.len(), prefix) {
            Err(e) => Err(e),
            Ok(v) => Ok(numbered_sorted(v, v.len())),
        },
    }
}

/// The numbered names of a directory in the order of their numbers.
pub fn list_numbered(
    operation: &'static str,
    directory: &str,
    prefix: &str,
    listing: Result<Vec<Entry>, IoFailure>,
) -> (r: PlatformResult<Vec<(u32, String)>>)
    ensures
        match r {
            Ok(v) => numbered_names(operation@, directory@, prefix@, listing) == Ok::<
                Seq<(u32, Seq<char>)>,
                PlatformErrorView,
            >(numbered(v@)),
            Err(e) => numbered_names(operation@, directory@, prefix@, listing) == Err::<
                Seq<(u32, Seq<char>)>,
                PlatformErrorView,
            >(e@),
        },
{
    match listing {
        Err(e) => if e.kind == IoKind::NotFound {
            let out: Vec<(u32, String)> = Vec::new();
            assert(numbered(out@) =~= Seq::empty());
            Ok(out)
        } else {
            Err(PlatformError::io(operation, directory, e))
        },
        Ok(entries) => match collect_prefixed(entries, prefix) {
            Err(e) => Err(e),
            Ok(v) => {
                assert(numbered(v@).len() == v@.len());
                Ok(sort_numbered(v))
            },
        },
    }
}

/// What was read of a file, as the model has it.
pub open spec fn read_view(r: PlatformResult<String>) -> Result<Seq<char>, PlatformErrorView> {
    match r {
        Ok(s) => Ok(s@),
        Err(e) => Err(e@),
    }
}

/// What was read of a file, or of another one where the first is missing.
pub open spec fn with_fallback(
    preferred: Result<Seq<char>, PlatformErrorView>,
    fallback: Result<Seq<char>, PlatformErrorView>,
) -> Result<Seq<char>, PlatformErrorView> {
    match preferred {
        Err(PlatformErrorView::Io { operation, path, source }) => if source.kind
            == IoKind::NotFound {
            fallback
        } else {
            preferred
        },
        _ => preferred,
    }
}

/// What was read of a file, or of another one where the first is missing.
pub fn read_required_with_fallback(
    preferred: PlatformResult<String>,
    fallback: PlatformResult<String>,
) -> (r: PlatformResult<String>)
    ensures
        read_view(r) == with_fallback(read_view(preferred), read_view(fallback)),
{
    let missing = match &preferred {
        Err(PlatformError::Io { operation: _, path: _, source }) => source.kind == IoKind::NotFound,
        _ => false,
    };
    if missing {
        fallback
    } else {
        preferred
    }
}

/// A frequency in hertz that a file gives in kilohertz.
pub open spec fn khz(path: Seq<char>, text: Result<Seq<char>, PlatformErrorView>) -> Result<
    u64,
    PlatformErrorView,
> {
    match text {
        Err(e) => Err(e),
        Ok(s) => match parsed_unsigned(s, u64::MAX as nat) {
            None => Err(
                malformed(path, "invalid kHz value: "@ + unsigned_error(s, u64::MAX as nat)),
            ),
            Some(n) => if n * 1_000 > u64::MAX {
                Err(malformed(path, "kHz value overflows hertz"@))
            } else {
                Ok((n * 1_000) as u64)
            },
        },
    }
}

/// A frequency in hertz that a file gives in kilohertz.
pub fn read_khz(path: &str, text: PlatformResult<String>) -> (r: PlatformResult<u64>)
    ensures
        match r {
            Ok(n) => khz(path@, read_view(text)) == Ok::<u64, PlatformErrorView>(n),
            Err(e) => khz(path@, read_view(text)) == Err::<u64, PlatformErrorView>(e@),
        },
{
    match text {
        Err(e) => Err(e),
        Ok(s) => match parse_u64(s.as_str()) {
            None => {
                let why = unsigned_error_text(s.as_str(), u64::MAX);
                let message = cat2("invalid kHz value: ", why);
                Err(PlatformError::invalid(path, message.as_str()))
            },
            Some(n) => match n.checked_mul(1_000) {
                None => Err(PlatformError::invalid(path, "kHz value overflows hertz")),
                Some(hz) => Ok(hz),
            },
        },
    }
}

/// A frequency that a file gives in hertz.
pub open spec fn hz(path: Seq<char>, text: Result<Seq<char>, PlatformErrorView>) -> Result<
    u64,
    PlatformErrorView,
> {
    match text {
        Err(e) => Err(e),
        Ok(s) => match parsed_unsigned(s, u64::MAX as nat) {
            None => Err(
                malformed(path, "invalid hertz value: "@ + unsigned_error(s, u64::MAX as nat)),
            ),
            Some(n) => Ok(n as u64),
        },
    }
}

/// A frequency that a file gives in hertz.
pub fn read_hz(path: &str, text: PlatformResult<String>) -> (r: PlatformResult<u64>)
    ensures
        match r {
            Ok(n) => hz(path@, read_view(text)) == Ok::<u64, PlatformErrorView>(n),
            Err(e) => hz(path@, read_view(text)) == Err::<u64, PlatformErrorView>(e@),
        },
{
    match text {
        Err(e) => Err(e),
        Ok(s) => match parse_u64(s.as_str()) {
            None => {
                let why = unsigned_error_text(s.as_str(), u64::MAX);
                let message = cat2("invalid hertz value: ", why);
                Err(PlatformError::invalid(path, message.as_str()))
            },
            Some(n) => Ok(n),
        },
    }
}

/// What was read of the files of a CPU frequency policy.
#[derive(Debug)]
pub struct PolicyFiles {
    pub related_cpus: PlatformResult<String>,
    /// Needed where the first is missing.
    pub affected_cpus: PlatformResult<String>,
    pub minimum: PlatformResult<String>,
    pub maximum: PlatformResult<String>,
    pub available: Option<String>,
    /// Needed where there is no list of frequencies.
    pub time_in_state: Option<String>,
    pub governor: Option<String>,
}

/// The frequencies that a policy lists, or those of its statistics.
pub open spec fn policy_frequencies(base: Seq<char>, files: PolicyFiles) -> Result<
    Seq<u64>,
    PlatformErrorView,
> {
    match (files.available, files.time_in_state) {
        (Some(s), _) => frequency_list(joined(base, "scaling_available_frequencies"@), s@, 1_000),
        (None, Some(s)) => frequency_list(
            joined(base, "stats/time_in_state"@),
            columns_of(lines_of(s@), lines_of(s@).len()),
            1_000,
        ),
        (None, None) => Ok(Seq::empty()),
    }
}

/// The operating points of a policy.
pub fn cpu_available_frequencies(base: &str, files: &PolicyFiles, limits: FrequencyLimits) -> (r:
    PlatformResult<Vec<u64>>)
    ensures
        match r {
            Ok(v) => policy_frequencies(base@, *files) is Ok && v@ == ascending_of(
                offered(policy_frequencies(base@, *files)->Ok_0, limits),
            ) && ascending(v@),
            Err(e) => policy_frequencies(base@, *files) == Err::<Seq<u64>, PlatformErrorView>(e@),
        },
{
    let listed: Vec<u64> = match &files.available {
        Some(s) => {
            let path = join(base, "scaling_available_frequencies");
            match parse_frequency_list(path.as_str(), s.as_str(), 1_000) {
                Err(e) => {
                    return Err(e);
                },
                Ok(v) => v,
            }
        },
        None => match &files.time_in_state {
            Some(s) => {
                let path = join(base, "stats/time_in_state");
                let columns = first_columns(s.as_str());
                match parse_frequency_list(path.as_str(), columns.as_str(), 1_000) {
                    Err(e) => {
                        return Err(e);
                    },
                    Ok(v) => v,
                }
            },
            None => Vec::new(),
        },
    };
    let out = normalize_opps(&listed, limits);
    assert(files.available is None && files.time_in_state is None ==> listed@
        =~= Seq::empty());
    proof {
        ascending_is_of(out@);
    }
    Ok(out)
}

/// The CPUs of a policy, or why there are none.
pub open spec fn policy_cpus(base: Seq<char>, files: PolicyFiles) -> Result<
    Set<u32>,
    PlatformErrorView,
> {
    let path = joined(base, "related_cpus"@);
    match with_fallback(read_view(files.related_cpus), read_view(files.affected_cpus)) {
        Err(e) => Err(e),
        Ok(s) => match cpu_set(path, s) {
            Err(e) => Err(e),
            Ok(set) => if set == Set::<u32>::empty() {
                Err(malformed(path, "CPU policy has an empty CPU set"@))
            } else {
                Ok(set)
            },
        },
    }
}

/// The hardware limits of a policy.
pub open spec fn policy_limits(base: Seq<char>, files: PolicyFiles) -> Result<
    FrequencyLimits,
    PlatformErrorView,
> {
    match khz(joined(base, "cpuinfo_min_freq"@), read_view(files.minimum)) {
        Err(e) => Err(e),
        Ok(min) => match khz(joined(base, "cpuinfo_max_freq"@), read_view(files.maximum)) {
            Err(e) => Err(e),
            Ok(max) => if min <= max {
                Ok(FrequencyLimits { min, max })
            } else {
                Err(malformed(joined(base, "cpuinfo_max_freq"@), REVERSED_WINDOW@))
            },
        },
    }
}

/// The files of a policy.
pub open spec fn policy_paths(base: Seq<char>, id: Seq<char>) -> TargetPathsView {
    TargetPathsView {
        id,
        minimum: joined(base, "scaling_min_freq"@),
        maximum: joined(base, "scaling_max_freq"@),
        current: joined(base, "scaling_cur_freq"@),
        hertz_per_unit: 1_000,
    }
}

/// What the files of a CPU frequency policy say, or why they make no sense.
pub open spec fn policy_of(base: Seq<char>, name: Seq<char>, files: PolicyFiles) -> Result<
    PolicyView,
    PlatformErrorView,
> {
    match policy_cpus(base, files) {
        Err(e) => Err(e),
        Ok(cpus) => match policy_limits(base, files) {
            Err(e) => Err(e),
            Ok(limits) => match policy_frequencies(base, files) {
                Err(e) => Err(e),
                Ok(listed) => if !valid_id("cpu."@ + name) {
                    Err(malformed(base, "invalid target ID: "@ + INVALID_TARGET_ID@))
                } else {
                    Ok(
                        PolicyView {
                            id: "cpu."@ + name,
                            policy_name: name,
                            cpus,
                            limits,
                            available_frequencies: ascending_of(offered(listed, limits)),
                            governor: opt_text(files.governor),
                        },
                    )
                },
            },
        },
    }
}

fn parse_policy_cpus(
    base: &str,
    related: PlatformResult<String>,
    affected: PlatformResult<String>,
) -> (r: PlatformResult<CpuIds>)
    ensures
        forall|files: PolicyFiles|
            files.related_cpus == related && files.affected_cpus == affected ==> match r {
                Ok(s) => #[trigger] policy_cpus(base@, files) == Ok::<Set<u32>, PlatformErrorView>(
                    s@,
                ),
                Err(e) => policy_cpus(base@, files) == Err::<Set<u32>, PlatformErrorView>(e@),
            },
{
    let path = join(base, "related_cpus");
    match read_required_with_fallback(related, affected) {
        Err(e) => Err(e),
        Ok(s) => match parse_cpu_set(path.as_str(), s.as_str()) {
            Err(e) => Err(e),
            Ok(set) => {
                if set.is_empty() {
                    Err(PlatformError::invalid(path.as_str(), "CPU policy has an empty CPU set"))
                } else {
                    Ok(set)
                }
            },
        },
    }
}

fn parse_policy_limits(
    base: &str,
    minimum: PlatformResult<String>,
    maximum: PlatformResult<String>,
) -> (r: PlatformResult<FrequencyLimits>)
    ensures
        forall|files: PolicyFiles|
            files.minimum == minimum && files.maximum == maximum ==> match r {
                Ok(l) => #[trigger] policy_limits(base@, files) == Ok::<
                    FrequencyLimits,
                    PlatformErrorView,
                >(l),
                Err(e) => policy_limits(base@, files) == Err::<FrequencyLimits, PlatformErrorView>(
                    e@,
                ),
            },
{
    let low = join(base, "cpuinfo_min_freq");
    let high = join(base, "cpuinfo_max_freq");
    match read_khz(low.as_str(), minimum) {
        Err(e) => Err(e),
        Ok(min) => match read_khz(high.as_str(), maximum) {
            Err(e) => Err(e),
            Ok(max) => match FrequencyLimits::new(min, max) {
                Some(l) => Ok(l),
                None => Err(PlatformError::invalid(high.as_str(), REVERSED_WINDOW)),
            },
        },
    }
}

/// What the files of a CPU frequency policy say.
pub fn parse_policy(base: &str, name: &str, files: PolicyFiles) -> (r: PlatformResult<
    (CpuPolicyCapability, FrequencyTargetPaths),
>)
    ensures
        match r {
            Ok((c, p)) => {
                &&& policy_of(base@, name@, files) == Ok::<PolicyView, PlatformErrorView>(c@)
                &&& p@ == policy_paths(base@, c@.id)
            },
            Err(e) => policy_of(base@, name@, files) == Err::<PolicyView, PlatformErrorView>(e@),
        },
{
    let ghost given = files;
    let PolicyFiles {
        related_cpus,
        affected_cpus,
        minimum,
        maximum,
        available,
        time_in_state,
        governor,
    } = files;
    let cpus = match parse_policy_cpus(base, related_cpus, affected_cpus) {
        Err(e) => {
            assert(policy_cpus(base@, given) is Err);
            return Err(e);
        },
        Ok(c) => c,
    };
    assert(policy_cpus(base@, given) is Ok);
    let limits = match parse_policy_limits(base, minimum, maximum) {
        Err(e) => {
            assert(policy_limits(base@, given) is Err);
            return Err(e);
        },
        Ok(l) => l,
    };
    assert(policy_limits(base@, given) is Ok);
    let rest = PolicyFiles {
        related_cpus: Err(PlatformError::Unsupported("")),
        affected_cpus: Err(PlatformError::Unsupported("")),
        minimum: Err(PlatformError::Unsupported("")),
        maximum: Err(PlatformError::Unsupported("")),
        available,
        time_in_state,
        governor: None,
    };
    assert(policy_frequencies(base@, rest) == policy_frequencies(base@, given));
    let available_frequencies = match cpu_available_frequencies(base, &rest, limits) {
        Err(e) => {
            return Err(e);
        },
        Ok(v) => v,
    };
    let id = cat2("cpu.", name);
    if !is_valid_id(id.as_str()) {
        let message = cat2("invalid target ID: ", INVALID_TARGET_ID);
        return Err(PlatformError::invalid(base, message.as_str()));
    }
    let paths = FrequencyTargetPaths {
        id: id.as_str().to_owned(),
        minimum: join(base, "scaling_min_freq"),
        maximum: join(base, "scaling_max_freq"),
        current: join(base, "scaling_cur_freq"),
        hertz_per_unit: 1_000,
    };
    let capability = CpuPolicyCapability {
        id,
        policy_name: name.to_owned(),
        cpus,
        limits,
        available_frequencies,
        governor,
    };
    Ok((capability, paths))
}

/// What discovery has gathered.
pub struct Gathered<C> {
    pub found: Seq<C>,
    pub targets: Map<Seq<char>, TargetPathsView>,
    pub warnings: Seq<Seq<char>>,
}

/// The directory of a CPU frequency policy.
pub open spec fn policy_base(relative: Seq<char>, name: Seq<char>) -> Seq<char> {
    joined(joined("/sys"@, relative), name)
}

/// What one policy adds. A policy whose files make no sense is passed over with
/// a warning.
pub open spec fn policy_found(
    relative: Seq<char>,
    g: Gathered<PolicyView>,
    name: Seq<char>,
    files: PolicyFiles,
) -> Gathered<PolicyView> {
    let base = policy_base(relative, name);
    match policy_of(base, name, files) {
        Ok(c) => Gathered {
            found: g.found.push(c),
            targets: g.targets.insert(c.id, policy_paths(base, c.id)),
            ..g
        },
        Err(e) => Gathered {
            warnings: g.warnings.push("skipping cpufreq "@ + name + ": "@ + e.text()),
            ..g
        },
    }
}

/// What the first `n` policies add.
pub open spec fn policies_found(
    relative: Seq<char>,
    start: Gathered<PolicyView>,
    all: Seq<(String, PolicyFiles)>,
    n: nat,
) -> Gathered<PolicyView>
    decreases n,
{
    if n == 0 {
        start
    } else {
        policy_found(
            relative,
            policies_found(relative, start, all, (n - 1) as nat),
            all[n - 1].0@,
            all[n - 1].1,
        )
    }
}

/// Takes in one policy.
fn take_policy(
    relative: &str,
    name: String,
    files: PolicyFiles,
    out: &mut Vec<CpuPolicyCapability>,
    targets: &mut Table<FrequencyTargetPaths>,
    warnings: &mut Vec<String>,
)
    ensures
        (Gathered {
            found: seq_view(final(out)@),
            targets: final(targets)@,
            warnings: texts(final(warnings)@),
        }) == policy_found(
            relative@,
            Gathered {
                found: seq_view(old(out)@),
                targets: old(targets)@,
                warnings: texts(old(warnings)@),
            },
            name@,
            files,
        ),
{
    let top = join("/sys", relative);
    let base = join(top.as_str(), name.as_str());
    match parse_policy(base.as_str(), name.as_str(), files) {
        Ok((capability, paths)) => {
            let key = capability.id.as_str().to_owned();
            targets.insert(key, paths);
            let ghost prior = seq_view(out@);
            let ghost added = capability@;
            out.push(capability);
            assert(seq_view(out@) =~= prior.push(added));
        },
        Err(e) => {
            let why = e.message();
            let ghost prior = texts(warnings@);
            let message = cat4("skipping cpufreq ", name.as_str(), ": ", why.as_str());
            let ghost added = message@;
            warnings.push(message);
            assert(texts(warnings@) =~= prior.push(added));
        },
    }
}

/// Gathers the CPU frequency policies.
pub fn discover_cpu_policies(
    relative: &str,
    policies: Vec<(String, PolicyFiles)>,
    targets: &mut Table<FrequencyTargetPaths>,
    warnings: &mut Vec<String>,
) -> (out: Vec<CpuPolicyCapability>)
    ensures
        (Gathered {
            found: seq_view(out@),
            targets: final(targets)@,
            warnings: texts(final(warnings)@),
        }) == policies_found(
            relative@,
            Gathered {
                found: Seq::empty(),
                targets: old(targets)@,
                warnings: texts(old(warnings)@),
            },
            policies@,
            policies@.len(),
        ),
{
    let ghost all = policies@;
    let ghost start = Gathered::<PolicyView> {
        found: Seq::empty(),
        targets: targets@,
        warnings: texts(warnings@),
    };
    let mut left = policies;
    let mut out: Vec<CpuPolicyCapability> = Vec::new();
    let mut n: Ghost<nat> = Ghost(0nat);
    assert(left@ =~= all.skip(0));
    assert(seq_view(out@) =~= Seq::empty());
    while left.len() > 0
        invariant
            n@ <= all.len(),
            left@ == all.skip(n@ as int),
            policies_found(relative@, start, all, n@) == (Gathered {
                found: seq_view(out@),
                targets: targets@,
                warnings: texts(warnings@),
            }),
        decreases left@.len(),
    {
        let (name, files) = left.remove(0);
        assert((name, files) == all[n@ as int]);
        take_policy(relative, name, files, &mut out, targets, warnings);
        n = Ghost(n@ + 1);
        assert(left@ =~= all.skip(n@ as int));
    }
    out
}

/// What was read of the files of a device with its own frequency control.
#[derive(Debug)]
pub struct DevfreqFiles {
    pub minimum: PlatformResult<String>,
    pub maximum: PlatformResult<String>,
    pub available_frequencies: Option<String>,
    /// Needed where the first is missing.
    pub available_freqs: Option<String>,
    pub governor: Option<String>,
    pub name: Option<String>,
    pub compatible: Option<String>,
}

/// The frequencies that a device lists.
pub open spec fn devfreq_frequencies(base: Seq<char>, files: DevfreqFiles) -> Result<
    Seq<u64>,
    PlatformErrorView,
> {
    let path = joined(base, "available_frequencies"@);
    match (files.available_frequencies, files.available_freqs) {
        (Some(s), _) => frequency_list(path, s@, 1),
        (None, Some(s)) => frequency_list(path, s@, 1),
        (None, None) => Ok(Seq::empty()),
    }
}

/// The frequencies that a device lists, in ascending order.
pub fn devfreq_available_frequencies(base: &str, files: &DevfreqFiles) -> (r: PlatformResult<
    Vec<u64>,
>)
    ensures
        match r {
            Ok(v) => {
                &&& devfreq_frequencies(base@, *files) is Ok
                &&& ascending(v@)
                &&& v@ == ascending_of(devfreq_frequencies(base@, *files)->Ok_0.to_set())
            },
            Err(e) => devfreq_frequencies(base@, *files) == Err::<Seq<u64>, PlatformErrorView>(e@),
        },
{
    let path = join(base, "available_frequencies");
    let listed: Vec<u64> = match &files.available_frequencies {
        Some(s) => match parse_frequency_list(path.as_str(), s.as_str(), 1) {
            Err(e) => {
                return Err(e);
            },
            Ok(v) => v,
        },
        None => match &files.available_freqs {
            Some(s) => match parse_frequency_list(path.as_str(), s.as_str(), 1) {
                Err(e) => {
                    return Err(e);
                },
                Ok(v) => v,
            },
            None => Vec::new(),
        },
    };
    assert(files.available_frequencies is None && files.available_freqs is None ==> listed@
        =~= Seq::empty());
    let out = sorted_distinct(&listed);
    proof {
        ascending_is_of(out@);
    }
    Ok(out)
}

/// The window that a device is set to.
pub open spec fn devfreq_window(base: Seq<char>, files: DevfreqFiles) -> Result<
    FrequencyLimits,
    PlatformErrorView,
> {
    match hz(joined(base, "min_freq"@), read_view(files.minimum)) {
        Err(e) => Err(e),
        Ok(min) => match hz(joined(base, "max_freq"@), read_view(files.maximum)) {
            Err(e) => Err(e),
            Ok(max) => if min <= max {
                Ok(FrequencyLimits { min, max })
            } else {
                Err(malformed(joined(base, "max_freq"@), REVERSED_WINDOW@))
            },
        },
    }
}

/// The limits of a device: the ends of its list, or where it has none the
/// window that it is set to, which must lie within.
pub open spec fn devfreq_limits(base: Seq<char>, window: FrequencyLimits, listed: Seq<u64>) -> Result<
    FrequencyLimits,
    PlatformErrorView,
> {
    if listed.len() == 0 {
        Ok(window)
    } else if window.min < listed[0] || window.max > listed.last() {
        Err(
            malformed(
                joined(base, "available_frequencies"@),
                "current devfreq window lies outside the advertised OPP table"@,
            ),
        )
    } else {
        Ok(FrequencyLimits { min: listed[0], max: listed.last() })
    }
}

/// The name of a device: its own, the first it is compatible with, or that of
/// its entry.
pub open spec fn devfreq_name(entry: Seq<char>, files: DevfreqFiles) -> Seq<char> {
    match opt_text(files.name) {
        Some(s) if s.len() > 0 => s,
        _ => match opt_text(files.compatible) {
            Some(c) => {
                let w = nonempty(pieces(c, Divider::Char('\0')));
                if w.len() > 0 {
                    w[0]
                } else {
                    entry
                }
            },
            None => entry,
        },
    }
}

/// The name of a device.
pub fn devfreq_device_name(entry: &str, files: &DevfreqFiles) -> (out: String)
    ensures
        out@ == devfreq_name(entry@, *files),
{
    if let Some(s) = &files.name {
        if !s.as_str().is_empty() {
            return s.as_str().to_owned();
        }
    }
    if let Some(c) = &files.compatible {
        if let Some(first) = first_compatible(c.as_str()) {
            return first;
        }
    }
    entry.to_owned()
}

/// What a device says it is compatible with.
pub fn devfreq_compatible(files: &DevfreqFiles) -> (out: Vec<String>)
    ensures
        texts(out@) == (match files.compatible {
            Some(c) => compatible_names(c@),
            None => Seq::empty(),
        }),
{
    match &files.compatible {
        Some(c) => parse_compatible(c.as_str()),
        None => {
            let out: Vec<String> = Vec::new();
            assert(texts(out@) =~= Seq::empty());
            out
        },
    }
}

/// A name in which each character that an identifier cannot hold is replaced.
pub open spec fn sanitized(name: Seq<char>) -> Seq<char> {
    Seq::new(
        name.len(),
        |i: int|
            if is_id_char(name[i]) {
                name[i]
            } else {
                '_'
            },
    )
}

/// The first `n` characters of a text, or all of a shorter one.
pub open spec fn cut(s: Seq<char>, n: int) -> Seq<char> {
    if s.len() <= n {
        s
    } else {
        s.take(n)
    }
}

/// The identifier that a device asks for.
pub open spec fn devfreq_id(entry: Seq<char>, index: nat) -> Seq<char> {
    let name = cut(sanitized(entry), ID_MAX_LEN - 8);
    if name.len() == 0 {
        "devfreq.target"@ + decimal_text(index)
    } else {
        "devfreq."@ + name
    }
}

/// The suffix that tells devices with the same name apart.
pub open spec fn id_suffix(hash: u64, discriminator: nat) -> Seq<char> {
    if discriminator == 0 {
        "."@ + hex_text(hash as nat, 16)
    } else {
        "."@ + hex_text(hash as nat, 16) + "."@ + decimal_text(discriminator)
    }
}

/// The identifier with a suffix, cut so that both fit.
pub open spec fn suffixed_id(base: Seq<char>, hash: u64, discriminator: nat) -> Seq<char> {
    let suffix = id_suffix(hash, discriminator);
    cut(base, ID_MAX_LEN - suffix.len()) + suffix
}

/// The first suffixed identifier from `d` on that is free.
pub open spec fn free_id(base: Seq<char>, hash: u64, used: Seq<Seq<char>>, d: nat) -> Option<
    Seq<char>,
>
    decreases u32::MAX + 1 - d,
{
    if d > u32::MAX {
        None
    } else if used.contains(suffixed_id(base, hash, d)) {
        free_id(base, hash, used, d + 1)
    } else {
        Some(suffixed_id(base, hash, d))
    }
}

/// The identifier of a device among those that are taken.
pub open spec fn device_id(entry: Seq<char>, identity: Seq<char>, index: nat, used: Seq<Seq<char>>) -> Option<
    Seq<char>,
> {
    let base = devfreq_id(entry, index);
    if used.contains(base) {
        free_id(base, fnv(encode_utf8(identity)), used, 0)
    } else {
        Some(base)
    }
}

/// The first `n` characters of an ASCII text.
fn truncated(s: &str, n: usize) -> (out: String)
    ensures
        out@ == cut(s@, n as int),
{
    let chars = chars_of(s);
    if chars.len() <= n {
        s.to_owned()
    } else {
        let out = string_of(&chars, 0, n);
        assert(out@ =~= s@.take(n as int));
        out
    }
}

/// A name in which each character that an identifier cannot hold is replaced.
fn sanitize(name: &str) -> (out: String)
    ensures
        out@ == sanitized(name@),
{
    let chars = chars_of(name);
    let mut out = String::new();
    let mut i: usize = 0;
    assert(out@ =~= sanitized(name@).take(0));
    while i < chars.len()
        invariant
            i <= chars@.len(),
            chars@ == name@,
            out@ == sanitized(name@).take(i as int),
        decreases chars@.len() - i,
    {
        let c = if char_in_id(chars[i]) {
            chars[i]
        } else {
            '_'
        };
        assert(sanitized(name@).take(i + 1) =~= sanitized(name@).take(i as int).push(c));
        out.push(c);
        i = i + 1;
    }
    assert(sanitized(name@).take(name@.len() as int) =~= sanitized(name@));
    out
}

/// The identifier of a device, which is then taken.
pub fn unique_devfreq_id(
    entry_name: &str,
    canonical_identity: &str,
    index: usize,
    used: &mut Vec<String>,
) -> (r: PlatformResult<String>)
    ensures
        match r {
            Ok(id) => {
                &&& device_id(entry_name@, canonical_identity@, index as nat, texts(old(used)@))
                    == Some(id@)
                &&& texts(final(used)@) == texts(old(used)@).push(id@)
            },
            Err(e) => {
                &&& device_id(
                    entry_name@,
                    canonical_identity@,
                    index as nat,
                    texts(old(used)@),
                ) is None
                &&& e@ == malformed(entry_name@, "exhausted devfreq target-ID discriminators"@)
                &&& final(used)@ == old(used)@
            },
        },
{
    let ghost before = texts(used@);
    let clean = sanitize(entry_name);
    let name = truncated(clean.as_str(), ID_MAX_LEN - 8);
    let base = if name.as_str().is_empty() {
        let number = format_u64(index as u64);
        cat2("devfreq.target", number.as_str())
    } else {
        cat2("devfreq.", name.as_str())
    };
    assert(base@ == devfreq_id(entry_name@, index as nat));
    if !lists(used, base.as_str()) {
        used.push(base.as_str().to_owned());
        assert(texts(used@) =~= before.push(base@));
        return Ok(base);
    }
    let hash: u64 = stable_path_hash(canonical_identity);
    let digits = format_hex(hash, 16);
    let mut d: u64 = 0;
    while d <= u32::MAX as u64
        invariant
            d <= u32::MAX + 1,
            used@ == old(used)@,
            before == texts(used@),
            digits@ == hex_text(hash as nat, 16),
            hash == fnv(encode_utf8(canonical_identity@)),
            base@ == devfreq_id(entry_name@, index as nat),
            device_id(entry_name@, canonical_identity@, index as nat, before) == free_id(
                base@,
                hash,
                before,
                d as nat,
            ),
        decreases u32::MAX + 1 - d,
    {
        let suffix = if d == 0 {
            cat2(".", digits.as_str())
        } else {
            let number = format_u64(d);
            cat4(".", digits.as_str(), ".", number.as_str())
        };
        assert(suffix@ == id_suffix(hash, d as nat));
        let size: usize = chars_of(suffix.as_str()).len();
        proof {
            suffix_is_short(hash, d as nat);
        }
        let head = truncated(base.as_str(), ID_MAX_LEN - size);
        let candidate = cat2(head.as_str(), suffix.as_str());
        if !lists(used, candidate.as_str()) {
            used.push(candidate.as_str().to_owned());
            assert(texts(used@) =~= before.push(candidate@));
            return Ok(candidate);
        }
        d = d + 1;
    }
    Err(PlatformError::invalid(entry_name, "exhausted devfreq target-ID discriminators"))
}

proof fn hex_is_plain(n: nat, width: nat)
    ensures
        hex_text(n, width).len() == width,
        forall|i: int| 0 <= i < width ==> is_id_char(#[trigger] hex_text(n, width)[i]),
    decreases width,
{
    if width > 0 {
        hex_is_plain(n / 16, (width - 1) as nat);
        let before = hex_text(n / 16, (width - 1) as nat);
        assert(is_id_char(digit_char(n % 16)));
        assert forall|i: int| 0 <= i < width implies is_id_char(#[trigger] hex_text(n, width)[i]) by {
            if i < width - 1 {
                assert(hex_text(n, width)[i] == before[i]);
            }
        }
    }
}

proof fn decimal_is_plain(n: nat)
    ensures
        forall|i: int|
            0 <= i < decimal_text(n).len() ==> is_id_char(#[trigger] decimal_text(n)[i]),
{
    decimal_text_reads_back(n);
    assert(is_digits(decimal_text(n)));
}

/// The length of a number in decimal.
proof fn decimal_is_short(n: nat, digits: nat)
    requires
        digits >= 1,
        n < vstd::arithmetic::power::pow(10, digits),
    ensures
        1 <= decimal_text(n).len() <= digits,
    decreases digits,
{
    if n >= 10 {
        reveal(vstd::arithmetic::power::pow);
        if digits == 1 {
            assert(vstd::arithmetic::power::pow(10, 1) == 10) by {
                reveal_with_fuel(vstd::arithmetic::power::pow, 3);
            }
        } else {
            assert(vstd::arithmetic::power::pow(10, digits) == 10 * vstd::arithmetic::power::pow(
                10,
                (digits - 1) as nat,
            ));
            decimal_is_short(n / 10, (digits - 1) as nat);
        }
    }
}

proof fn suffix_is_short(hash: u64, d: nat)
    requires
        d <= u32::MAX,
    ensures
        17 <= id_suffix(hash, d).len() <= 28,
        forall|i: int|
            0 <= i < id_suffix(hash, d).len() ==> is_id_char(#[trigger] id_suffix(hash, d)[i]),
{
    reveal_strlit(".");
    hex_is_plain(hash as nat, 16);
    decimal_is_plain(d);
    assert(vstd::arithmetic::power::pow(10, 10) == 10_000_000_000) by {
        reveal_with_fuel(vstd::arithmetic::power::pow, 12);
    }
    decimal_is_short(d, 10);
}

/// Each device gets an identifier that is valid and was free.
pub proof fn device_ids_are_valid_and_new(
    entry: Seq<char>,
    identity: Seq<char>,
    index: u64,
    used: Seq<Seq<char>>,
)
    ensures
        match device_id(entry, identity, index as nat, used) {
            Some(id) => valid_id(id) && !used.contains(id),
            None => true,
        },
{
    let base = devfreq_id(entry, index as nat);
    base_is_valid(entry, index);
    if used.contains(base) {
        free_is_valid(base, fnv(encode_utf8(identity)), used, 0);
    }
}

proof fn base_is_valid(entry: Seq<char>, index: u64)
    ensures
        valid_id(devfreq_id(entry, index as nat)),
{
    reveal_strlit("devfreq.");
    reveal_strlit("devfreq.target");
    let name = cut(sanitized(entry), ID_MAX_LEN - 8);
    let id = devfreq_id(entry, index as nat);
    assert("devfreq."@.len() == 8 && "devfreq.target"@.len() == 14);
    assert(id[0] == 'd');
    decimal_is_plain(index as nat);
    assert(vstd::arithmetic::power::pow(10, 20) == 100_000_000_000_000_000_000) by {
        reveal_with_fuel(vstd::arithmetic::power::pow, 22);
    }
    decimal_is_short(index as nat, 20);
    assert forall|i: int| 0 <= i < id.len() implies is_id_char(#[trigger] id[i]) by {
        if name.len() == 0 {
            if i >= 14 {
                assert(id[i] == decimal_text(index as nat)[i - 14]);
            }
        } else if i >= 8 {
            assert(id[i] == name[i - 8]);
            assert(name[i - 8] == sanitized(entry)[i - 8]);
        }
    }
}

proof fn free_is_valid(base: Seq<char>, hash: u64, used: Seq<Seq<char>>, d: nat)
    requires
        valid_id(base),
    ensures
        match free_id(base, hash, used, d) {
            Some(id) => valid_id(id) && !used.contains(id),
            None => true,
        },
    decreases u32::MAX + 1 - d,
{
    if d <= u32::MAX {
        let id = suffixed_id(base, hash, d);
        if used.contains(id) {
            free_is_valid(base, hash, used, d + 1);
        } else {
            let suffix = id_suffix(hash, d);
            suffix_is_short(hash, d);
            let head = cut(base, ID_MAX_LEN - suffix.len());
            assert(id.len() == head.len() + suffix.len());
            assert(id[0] == base[0]);
            assert forall|i: int| 0 <= i < id.len() implies is_id_char(#[trigger] id[i]) by {
                if i < head.len() {
                    assert(id[i] == base[i]);
                } else {
                    assert(id[i] == suffix[i - head.len()]);
                }
            }
        }
    }
}

/// What the files of a device say, apart from its identifier.
pub open spec fn devfreq_facts(c: CandidateView, files: DevfreqFiles) -> Result<
    (FrequencyLimits, Seq<u64>),
    PlatformErrorView,
> {
    match devfreq_window(c.logical_base, files) {
        Err(e) => Err(e),
        Ok(window) => match devfreq_frequencies(c.logical_base, files) {
            Err(e) => Err(e),
            Ok(raw) => {
                let listed = ascending_of(raw.to_set());
                match devfreq_limits(c.logical_base, window, listed) {
                    Err(e) => Err(e),
                    Ok(limits) => Ok((limits, ascending_of(offered(listed, limits)))),
                }
            },
        },
    }
}

/// The files of a device.
pub open spec fn devfreq_paths(base: Seq<char>, id: Seq<char>) -> TargetPathsView {
    TargetPathsView {
        id,
        minimum: joined(base, "min_freq"@),
        maximum: joined(base, "max_freq"@),
        current: joined(base, "cur_freq"@),
        hertz_per_unit: 1,
    }
}

/// What the files of a device say, or why they make no sense.
pub open spec fn devfreq_of(
    c: CandidateView,
    files: DevfreqFiles,
    index: nat,
    used: Seq<Seq<char>>,
) -> Result<DevfreqView, PlatformErrorView> {
    match devfreq_facts(c, files) {
        Err(e) => Err(e),
        Ok((limits, available)) => match device_id(
            c.entry_name,
            c.canonical_identity,
            index,
            used,
        ) {
            None => Err(malformed(c.entry_name, "exhausted devfreq target-ID discriminators"@)),
            Some(id) => Ok(
                DevfreqView {
                    id,
                    device_name: devfreq_name(c.entry_name, files),
                    compatible: match files.compatible {
                        Some(s) => compatible_names(s@),
                        None => Seq::empty(),
                    },
                    limits,
                    available_frequencies: available,
                    governor: opt_text(files.governor),
                },
            ),
        },
    }
}

fn parse_devfreq_window(
    base: &str,
    minimum: PlatformResult<String>,
    maximum: PlatformResult<String>,
) -> (r: PlatformResult<FrequencyLimits>)
    ensures
        forall|files: DevfreqFiles|
            files.minimum == minimum && files.maximum == maximum ==> match r {
                Ok(l) => #[trigger] devfreq_window(base@, files) == Ok::<
                    FrequencyLimits,
                    PlatformErrorView,
                >(l),
                Err(e) => devfreq_window(base@, files) == Err::<FrequencyLimits, PlatformErrorView>(
                    e@,
                ),
            },
{
    let low = join(base, "min_freq");
    let high = join(base, "max_freq");
    match read_hz(low.as_str(), minimum) {
        Err(e) => Err(e),
        Ok(min) => match read_hz(high.as_str(), maximum) {
            Err(e) => Err(e),
            Ok(max) => match FrequencyLimits::new(min, max) {
                Some(l) => Ok(l),
                None => Err(PlatformError::invalid(high.as_str(), REVERSED_WINDOW)),
            },
        },
    }
}

fn choose_limits(base: &str, window: FrequencyLimits, listed: &Vec<u64>) -> (r: PlatformResult<
    FrequencyLimits,
>)
    ensures
        match r {
            Ok(l) => devfreq_limits(base@, window, listed@) == Ok::<
                FrequencyLimits,
                PlatformErrorView,
            >(l),
            Err(e) => devfreq_limits(base@, window, listed@) == Err::<
                FrequencyLimits,
                PlatformErrorView,
            >(e@),
        },
{
    if listed.len() == 0 {
        return Ok(window);
    }
    let minimum: u64 = listed[0];
    let maximum: u64 = listed[listed.len() - 1];
    if window.min < minimum || window.max > maximum {
        let path = join(base, "available_frequencies");
        return Err(
            PlatformError::invalid(
                path.as_str(),
                "current devfreq window lies outside the advertised OPP table",
            ),
        );
    }
    Ok(FrequencyLimits { min: minimum, max: maximum })
}

/// What the files of a device say. Its identifier is taken only where they
/// make sense.
pub fn parse_devfreq(
    candidate: &DevfreqCandidate,
    files: DevfreqFiles,
    index: usize,
    used: &mut Vec<String>,
) -> (r: PlatformResult<(DevfreqCapability, FrequencyTargetPaths)>)
    ensures
        match r {
            Ok((c, p)) => {
                &&& devfreq_of(candidate@, files, index as nat, texts(old(used)@)) == Ok::<
                    DevfreqView,
                    PlatformErrorView,
                >(c@)
                &&& p@ == devfreq_paths(candidate@.logical_base, c@.id)
                &&& texts(final(used)@) == texts(old(used)@).push(c@.id)
            },
            Err(e) => {
                &&& devfreq_of(candidate@, files, index as nat, texts(old(used)@)) == Err::<
                    DevfreqView,
                    PlatformErrorView,
                >(e@)
                &&& final(used)@ == old(used)@
            },
        },
{
    let ghost given = files;
    let base = candidate.logical_base.as_str();
    let DevfreqFiles {
        minimum,
        maximum,
        available_frequencies,
        available_freqs,
        governor,
        name,
        compatible,
    } = files;
    let window = match parse_devfreq_window(base, minimum, maximum) {
        Err(e) => {
            assert(devfreq_window(base@, given) is Err);
            return Err(e);
        },
        Ok(w) => w,
    };
    assert(devfreq_window(base@, given) is Ok);
    let rest = DevfreqFiles {
        minimum: Err(PlatformError::Unsupported("")),
        maximum: Err(PlatformError::Unsupported("")),
        available_frequencies,
        available_freqs,
        governor: None,
        name,
        compatible,
    };
    assert(devfreq_frequencies(base@, rest) == devfreq_frequencies(base@, given));
    assert(devfreq_name(candidate@.entry_name, rest) == devfreq_name(candidate@.entry_name, given));
    let listed = match devfreq_available_frequencies(base, &rest) {
        Err(e) => {
            return Err(e);
        },
        Ok(v) => v,
    };
    let limits = match choose_limits(base, window, &listed) {
        Err(e) => {
            return Err(e);
        },
        Ok(l) => l,
    };
    let available_frequencies = normalize_opps(&listed, limits);
    proof {
        ascending_is_of(available_frequencies@);
    }
    let device_name = devfreq_device_name(candidate.entry_name.as_str(), &rest);
    let compatible = devfreq_compatible(&rest);
    let id = match unique_devfreq_id(
        candidate.entry_name.as_str(),
        candidate.canonical_identity.as_str(),
        index,
        used,
    ) {
        Err(e) => {
            return Err(e);
        },
        Ok(id) => id,
    };
    let paths = FrequencyTargetPaths {
        id: id.as_str().to_owned(),
        minimum: join(base, "min_freq"),
        maximum: join(base, "max_freq"),
        current: join(base, "cur_freq"),
        hertz_per_unit: 1,
    };
    let capability = DevfreqCapability {
        id,
        device_name,
        compatible,
        limits,
        available_frequencies,
        governor,
    };
    Ok((capability, paths))
}

/// The identifier of a device never begins like that of a CPU policy.
pub proof fn device_ids_begin_with_d(
    entry: Seq<char>,
    identity: Seq<char>,
    index: u64,
    used: Seq<Seq<char>>,
)
    ensures
        match device_id(entry, identity, index as nat, used) {
            Some(id) => id.len() > 0 && id[0] == 'd',
            None => true,
        },
{
    base_begins_with_d(entry, index);
    base_is_valid(entry, index);
    let base = devfreq_id(entry, index as nat);
    if used.contains(base) {
        free_begins_with_d(base, fnv(encode_utf8(identity)), used, 0);
    }
}

proof fn base_begins_with_d(entry: Seq<char>, index: u64)
    ensures
        devfreq_id(entry, index as nat).len() > 0,
        devfreq_id(entry, index as nat)[0] == 'd',
{
    reveal_strlit("devfreq.");
    reveal_strlit("devfreq.target");
    assert("devfreq."@.len() == 8 && "devfreq.target"@.len() == 14);
    assert("devfreq."@[0] == 'd' && "devfreq.target"@[0] == 'd');
}

proof fn free_begins_with_d(base: Seq<char>, hash: u64, used: Seq<Seq<char>>, d: nat)
    requires
        base.len() > 0,
        base[0] == 'd',
    ensures
        match free_id(base, hash, used, d) {
            Some(id) => id.len() > 0 && id[0] == 'd',
            None => true,
        },
    decreases u32::MAX + 1 - d,
{
    if d <= u32::MAX {
        suffix_is_short(hash, d);
        let suffix = id_suffix(hash, d);
        let head = cut(base, ID_MAX_LEN - suffix.len());
        assert(head.len() > 0 && head[0] == 'd');
        assert(suffixed_id(base, hash, d)[0] == 'd');
        if used.contains(suffixed_id(base, hash, d)) {
            free_begins_with_d(base, hash, used, d + 1);
        }
    }
}

/// Whether each target is a CPU policy.
pub open spec fn only_policies(targets: Map<Seq<char>, TargetPathsView>) -> bool {
    forall|k: Seq<char>| #[trigger] targets.dom().contains(k) ==> k.len() > 0 && k[0] == 'c'
}

/// What CPU policies add are CPU policies.
pub proof fn policies_add_policies(
    relative: Seq<char>,
    start: Gathered<PolicyView>,
    all: Seq<(String, PolicyFiles)>,
    n: nat,
)
    requires
        n <= all.len(),
        only_policies(start.targets),
    ensures
        only_policies(policies_found(relative, start, all, n).targets),
    decreases n,
{
    if n > 0 {
        policies_add_policies(relative, start, all, (n - 1) as nat);
        reveal_strlit("cpu.");
        assert("cpu."@.len() == 4 && "cpu."@[0] == 'c');
    }
}

} // verus!
