//! The service: running workloads that look like games, and what is signalled
//! to clients.

use vstd::prelude::*;
use crate::api::{
    ActiveWorkload, ActiveWorkloadView, RunningWorkload, RunningWorkloadView, SchedulerStatus,
    SchedulerStatusView, WorkloadIdentity,
};
use crate::model::{opt_view, seq_view, ProcessInfo, ProcessView};
use crate::number::{decimal_text, format_u64};
use crate::platform::{PlatformError, PlatformResult, ProcReader};
use crate::text::{cat2, cat4, chars_of, contains, has_infix, same};
use super::names::{ErrorView, RuntimeError};
use super::publish::{client_identity, core_identity_to_api};

verus! {

/// How many candidates are listed at most.
pub const MAX_RUNNING_WORKLOADS: usize = 128;

/// `c` with an ASCII capital turned into its small letter.
pub open spec fn lower_char(c: char) -> char {
    if 'A' <= c && c <= 'Z' {
        (c as u32 + 32) as char
    } else {
        c
    }
}

/// `s` with ASCII capitals turned into small letters.
pub open spec fn lower(s: Seq<char>) -> Seq<char> {
    Seq::new(s.len(), |i: int| lower_char(s[i]))
}

/// The small letter of an ASCII capital.
fn small_letter(c: char) -> (r: char)
    ensures
        r == lower_char(c),
{
    match c {
        'A' => 'a',
        'B' => 'b',
        'C' => 'c',
        'D' => 'd',
        'E' => 'e',
        'F' => 'f',
        'G' => 'g',
        'H' => 'h',
        'I' => 'i',
        'J' => 'j',
        'K' => 'k',
        'L' => 'l',
        'M' => 'm',
        'N' => 'n',
        'O' => 'o',
        'P' => 'p',
        'Q' => 'q',
        'R' => 'r',
        'S' => 's',
        'T' => 't',
        'U' => 'u',
        'V' => 'v',
        'W' => 'w',
        'X' => 'x',
        'Y' => 'y',
        'Z' => 'z',
        _ => c,
    }
}

/// `str::to_ascii_lowercase`.
pub fn to_ascii_lowercase(s: &str) -> (out: String)
    ensures
        out@ == lower(s@),
{
    let chars = chars_of(s);
    let mut out = String::new();
    let mut i: usize = 0;
    while i < chars.len()
        invariant
            i <= chars@.len(),
            chars@ == s@,
            out@ == lower(s@).take(i as int),
        decreases chars@.len() - i,
    {
        out.push(small_letter(chars[i]));
        i = i + 1;
        assert(out@ =~= lower(s@).take(i as int));
    }
    assert(lower(s@).take(i as int) =~= lower(s@));
    out
}

/// The patterns that process names and programs are searched for, in order.
pub open spec fn game_patterns() -> Seq<Seq<char>> {
    seq![
        "unitymain"@,
        "gamethread"@,
        "renderthread"@,
        "glthread"@,
        "dolphin"@,
        "ppsspp"@,
        "retroarch"@,
        "wine"@,
        "proton"@,
        "mihoyo"@,
        "hoyoverse"@,
        "minecraft"@,
        "gameloft"@,
        "supercell"@,
        "niantic"@,
        "rovio"@,
        "ea.games"@,
        "playdead"@,
        "half-life"@,
        "steam"@,
        "gta"@,
        "pubg"@,
        "fortnite"@,
        "callofduty"@,
        "genshin"@,
        "honkai"@,
        "arknights"@,
        "yuzu"@,
        "ryujinx"@,
    ]
}

/// The pattern at a position.
fn game_pattern(i: usize) -> (r: &'static str)
    requires
        i < game_patterns().len(),
    ensures
        r@ == game_patterns()[i as int],
{
    match i {
        0 => "unitymain",
        1 => "gamethread",
        2 => "renderthread",
        3 => "glthread",
        4 => "dolphin",
        5 => "ppsspp",
        6 => "retroarch",
        7 => "wine",
        8 => "proton",
        9 => "mihoyo",
        10 => "hoyoverse",
        11 => "minecraft",
        12 => "gameloft",
        13 => "supercell",
        14 => "niantic",
        15 => "rovio",
        16 => "ea.games",
        17 => "playdead",
        18 => "half-life",
        19 => "steam",
        20 => "gta",
        21 => "pubg",
        22 => "fortnite",
        23 => "callofduty",
        24 => "genshin",
        25 => "honkai",
        26 => "arknights",
        27 => "yuzu",
        _ => "ryujinx",
    }
}

/// The program of a process, empty where it is unknown.
pub open spec fn program(process: ProcessView) -> Seq<char> {
    match process.executable {
        Some(e) => e,
        None => Seq::empty(),
    }
}

/// Whether a pattern occurs in the name or the program of a process, whatever
/// the case.
pub open spec fn pattern_matches(process: ProcessView, pattern: Seq<char>) -> bool {
    has_infix(lower(process.comm), pattern) || has_infix(lower(program(process)), pattern)
}

/// The first pattern from position `k` on that matches.
pub open spec fn first_pattern(process: ProcessView, k: int) -> Option<Seq<char>>
    decreases game_patterns().len() - k,
{
    if k < 0 || k >= game_patterns().len() {
        None
    } else if pattern_matches(process, game_patterns()[k]) {
        Some(game_patterns()[k])
    } else {
        first_pattern(process, k + 1)
    }
}

/// The first pattern that matches a process.
pub fn matched_game_pattern(process: &ProcessInfo) -> (r: Option<&'static str>)
    ensures
        match r {
            Some(p) => first_pattern(process@, 0) == Some(p@),
            None => first_pattern(process@, 0) is None,
        },
{
    let comm = to_ascii_lowercase(process.comm.as_str());
    let executable = match &process.executable {
        Some(e) => to_ascii_lowercase(e.as_str()),
        None => to_ascii_lowercase(""),
    };
    proof {
        reveal_strlit("");
        assert(""@ =~= Seq::<char>::empty());
    }
    let mut k: usize = 0;
    while k < 29
        invariant
            k <= 29,
            game_patterns().len() == 29,
            comm@ == lower(process@.comm),
            executable@ == lower(program(process@)),
            first_pattern(process@, 0) == first_pattern(process@, k as int),
        decreases 29 - k,
    {
        let pattern = game_pattern(k);
        if contains(comm.as_str(), pattern) || contains(executable.as_str(), pattern) {
            return Some(pattern);
        }
        k = k + 1;
    }
    None
}

/// No scheduling is known.
pub open spec fn no_scheduler() -> SchedulerStatusView {
    SchedulerStatusView {
        enabled: false,
        matched_rule: Seq::empty(),
        managed_tasks: 0,
        applied_tasks: 0,
        cgroup_class: Seq::empty(),
        systemd_unit: Seq::empty(),
        cgroup_applied: false,
        warning: Seq::empty(),
    }
}

/// No scheduling is known.
pub fn empty_scheduler() -> (s: SchedulerStatus)
    ensures
        s@ == no_scheduler(),
{
    SchedulerStatus {
        enabled: false,
        matched_rule: String::new(),
        managed_tasks: 0,
        applied_tasks: 0,
        cgroup_class: String::new(),
        systemd_unit: String::new(),
        cgroup_applied: false,
        warning: String::new(),
    }
}

/// A copy of a scheduling state.
pub fn copy_scheduler(s: &SchedulerStatus) -> (out: SchedulerStatus)
    ensures
        out@ == s@,
{
    SchedulerStatus {
        enabled: s.enabled,
        matched_rule: s.matched_rule.clone(),
        managed_tasks: s.managed_tasks,
        applied_tasks: s.applied_tasks,
        cgroup_class: s.cgroup_class.clone(),
        systemd_unit: s.systemd_unit.clone(),
        cgroup_applied: s.cgroup_applied,
        warning: s.warning.clone(),
    }
}

/// The candidate that a process makes, if a pattern matches it.
pub open spec fn candidate(process: ProcessView) -> Option<RunningWorkloadView> {
    match first_pattern(process, 0) {
        Some(pattern) => Some(
            RunningWorkloadView {
                identity: client_identity(process.identity),
                name: process.comm,
                matched_pattern: pattern,
                active: false,
                scheduler: no_scheduler(),
            },
        ),
        None => None,
    }
}

/// What became of reading one process.
pub enum LookupView {
    Found(ProcessView),
    /// It is gone or may not be read; it is passed over.
    Skipped,
    /// Its files make no sense; the scan ends with this message.
    Broken(Seq<char>),
}

/// What a reading of one process means for the scan.
pub open spec fn scan_lookup(pid: u32, result: Result<ProcessInfo, PlatformError>) -> LookupView {
    match result {
        Ok(p) => LookupView::Found(p@),
        Err(PlatformError::Disappeared(_)) => LookupView::Skipped,
        Err(PlatformError::AccessDenied { .. }) => LookupView::Skipped,
        Err(PlatformError::Io { .. }) => LookupView::Skipped,
        Err(e) => LookupView::Broken(
            "read process "@ + decimal_text(pid as nat) + ": "@ + e.text(),
        ),
    }
}

/// Whether a failed reading of one process is passed over.
fn is_passed_over(e: &PlatformError) -> (r: bool)
    ensures
        r == (e is Disappeared || e is AccessDenied || e is Io),
{
    match e {
        PlatformError::Disappeared(_) => true,
        PlatformError::AccessDenied { .. } => true,
        PlatformError::Io { .. } => true,
        PlatformError::InvalidData { .. } => false,
        PlatformError::Unsupported(_) => false,
    }
}

/// What a reading of one process adds to the scan: a candidate, nothing, or the
/// end of the scan.
pub fn scan_process(pid: u32, result: Result<ProcessInfo, PlatformError>) -> (r: Result<
    Option<RunningWorkload>,
    String,
>)
    ensures
        match scan_lookup(pid, result) {
            LookupView::Found(p) => r is Ok && opt_view(r->Ok_0) == candidate(p),
            LookupView::Skipped => r is Ok && r->Ok_0 is None,
            LookupView::Broken(e) => r is Err && r->Err_0@ == e,
        },
{
    match result {
        Ok(process) => match matched_game_pattern(&process) {
            Some(pattern) => Ok(
                Some(
                    RunningWorkload {
                        identity: core_identity_to_api(process.identity),
                        name: process.comm,
                        matched_pattern: pattern.to_owned(),
                        active: false,
                        scheduler: empty_scheduler(),
                    },
                ),
            ),
            None => Ok(None),
        },
        Err(e) => {
            if is_passed_over(&e) {
                return Ok(None);
            }
            let number = format_u64(pid as u64);
            let why = e.message();
            Err(cat4("read process ", number.as_str(), ": ", why.as_str()))
        },
    }
}

/// Whether candidates stand in the order of their process numbers.
pub open spec fn by_pid(v: Seq<RunningWorkloadView>) -> bool {
    forall|i: int, j: int| 0 <= i < j < v.len() ==> v[i].identity.pid <= v[j].identity.pid
}

/// A list ordered by process number, equal ones in the order they came.
pub open spec fn insert_by_pid(
    v: Seq<RunningWorkloadView>,
    x: RunningWorkloadView,
) -> Seq<RunningWorkloadView>
    decreases v.len(),
{
    if v.len() == 0 || v.last().identity.pid <= x.identity.pid {
        v.push(x)
    } else {
        insert_by_pid(v.drop_last(), x).push(v.last())
    }
}

/// The list in the order of process numbers, equal ones in the order they came.
pub open spec fn sorted_by_pid(v: Seq<RunningWorkloadView>) -> Seq<RunningWorkloadView>
    decreases v.len(),
{
    if v.len() == 0 {
        v
    } else {
        insert_by_pid(sorted_by_pid(v.drop_last()), v.last())
    }
}

/// Inserting keeps the order and adds one.
proof fn insert_keeps_order(v: Seq<RunningWorkloadView>, x: RunningWorkloadView)
    requires
        by_pid(v),
    ensures
        by_pid(insert_by_pid(v, x)),
        insert_by_pid(v, x).len() == v.len() + 1,
        forall|e: RunningWorkloadView| #[trigger]
            insert_by_pid(v, x).contains(e) <==> v.contains(e) || e == x,
    decreases v.len(),
{
    let out = insert_by_pid(v, x);
    if v.len() == 0 || v.last().identity.pid <= x.identity.pid {
        assert forall|e: RunningWorkloadView| #[trigger] out.contains(e) <==> v.contains(e) || e == x by {
            if v.contains(e) {
                let k = choose|k: int| 0 <= k < v.len() && v[k] == e;
                assert(out[k] == e);
            }
            assert(out[v.len() as int] == x);
        }
        assert forall|i: int, j: int| 0 <= i < j < out.len() implies out[i].identity.pid
            <= out[j].identity.pid by {
            if j == v.len() {
                assert(v[i].identity.pid <= v.last().identity.pid);
            }
        }
    } else {
        let init = v.drop_last();
        insert_keeps_order(init, x);
        let inner = insert_by_pid(init, x);
        assert forall|e: RunningWorkloadView| #[trigger] out.contains(e) <==> v.contains(e) || e == x by {
            if v.contains(e) {
                let k = choose|k: int| 0 <= k < v.len() && v[k] == e;
                if k < init.len() {
                    assert(init[k] == e);
                    assert(inner.contains(e));
                    let m = choose|m: int| 0 <= m < inner.len() && inner[m] == e;
                    assert(out[m] == e);
                } else {
                    assert(out[inner.len() as int] == e);
                }
            }
            if e == x {
                assert(inner.contains(e));
                let m = choose|m: int| 0 <= m < inner.len() && inner[m] == e;
                assert(out[m] == e);
            }
            if out.contains(e) {
                let k = choose|k: int| 0 <= k < out.len() && out[k] == e;
                if k < inner.len() {
                    assert(inner.contains(e));
                    if init.contains(e) {
                        let m = choose|m: int| 0 <= m < init.len() && init[m] == e;
                        assert(v[m] == e);
                    }
                } else {
                    assert(v[v.len() - 1] == e);
                }
            }
        }
        assert forall|i: int, j: int| 0 <= i < j < out.len() implies out[i].identity.pid
            <= out[j].identity.pid by {
            if j == inner.len() {
                assert(inner.contains(inner[i]));
                if init.contains(inner[i]) {
                    let m = choose|m: int| 0 <= m < init.len() && init[m] == inner[i];
                    assert(v[m].identity.pid <= v[v.len() - 1].identity.pid);
                }
            }
        }
    }
}

/// The list is sorted and holds the same candidates.
pub proof fn sorting_keeps_candidates(v: Seq<RunningWorkloadView>)
    ensures
        by_pid(sorted_by_pid(v)),
        sorted_by_pid(v).len() == v.len(),
        forall|e: RunningWorkloadView| #[trigger] sorted_by_pid(v).contains(e) <==> v.contains(e),
    decreases v.len(),
{
    if v.len() > 0 {
        let init = v.drop_last();
        sorting_keeps_candidates(init);
        insert_keeps_order(sorted_by_pid(init), v.last());
        assert forall|e: RunningWorkloadView| #[trigger] sorted_by_pid(v).contains(e) <==> v.contains(e) by {
            if v.contains(e) {
                let k = choose|k: int| 0 <= k < v.len() && v[k] == e;
                if k < init.len() {
                    assert(init[k] == e);
                }
            }
            if init.contains(e) {
                let k = choose|k: int| 0 <= k < init.len() && init[k] == e;
                assert(v[k] == e);
            }
            assert(v[v.len() - 1] == v.last());
        }
    }
}

/// Puts a candidate at its place.
fn put_by_pid(v: &mut Vec<RunningWorkload>, x: RunningWorkload)
    ensures
        seq_view(final(v)@) == insert_by_pid(seq_view(old(v)@), x@),
{
    let ghost all = seq_view(v@);
    let mut i: usize = v.len();
    let ghost view = x@;
    assert(all.take(i as int) =~= all);
    assert(all.skip(i as int) =~= Seq::empty());
    assert(insert_by_pid(all, view) =~= insert_by_pid(all.take(i as int), view) + all.skip(i as int));
    while i > 0 && v[i - 1].identity.pid > x.identity.pid
        invariant
            i <= v@.len(),
            view == x@,
            all == seq_view(v@),
            insert_by_pid(all, view) == insert_by_pid(all.take(i as int), view) + all.skip(
                i as int,
            ),
        decreases i,
    {
        proof {
            let t = all.take(i as int);
            assert(t.drop_last() =~= all.take(i - 1));
            assert(t.last() == all[i - 1]);
            assert(insert_by_pid(t, view) == insert_by_pid(all.take(i - 1), view).push(all[i - 1]));
            assert(insert_by_pid(all.take(i - 1), view).push(all[i - 1]) + all.skip(i as int)
                =~= insert_by_pid(all.take(i - 1), view) + all.skip(i - 1));
        }
        i = i - 1;
    }
    v.insert(i, x);
    proof {
        let t = all.take(i as int);
        if i > 0 {
            assert(t.last() == all[i - 1]);
        }
        assert(insert_by_pid(t, view) == t.push(view));
        assert(seq_view(v@) =~= t.push(view) + all.skip(i as int));
    }
}

/// The first `n` lists in the order of process numbers.
fn sort_by_pid(v: Vec<RunningWorkload>) -> (out: Vec<RunningWorkload>)
    ensures
        seq_view(out@) == sorted_by_pid(seq_view(v@)),
{
    let ghost all = seq_view(v@);
    let mut rest = v;
    let mut reversed: Vec<RunningWorkload> = Vec::new();
    while rest.len() > 0
        invariant
            rest@.len() + reversed@.len() == all.len(),
            seq_view(rest@) == all.take(rest@.len() as int),
            forall|j: int|
                0 <= j < reversed@.len() ==> (#[trigger] reversed@[j])@ == all[all.len() - 1 - j],
        decreases rest@.len(),
    {
        let ghost before = rest@;
        if let Some(x) = rest.pop() {
            proof {
                assert(seq_view(before)[before.len() - 1] == x@);
                assert(seq_view(rest@) =~= all.take(rest@.len() as int));
            }
            reversed.push(x);
        }
    }
    let mut out: Vec<RunningWorkload> = Vec::new();
    assert(seq_view(out@) =~= sorted_by_pid(all.take(0)));
    while reversed.len() > 0
        invariant
            reversed@.len() <= all.len(),
            forall|j: int|
                0 <= j < reversed@.len() ==> (#[trigger] reversed@[j])@ == all[all.len() - 1 - j],
            seq_view(out@) == sorted_by_pid(all.take(all.len() - reversed@.len())),
        decreases reversed@.len(),
    {
        let ghost k = all.len() - reversed@.len();
        if let Some(x) = reversed.pop() {
            proof {
                assert(x@ == all[k]);
                assert(all.take(k + 1).drop_last() =~= all.take(k));
                assert(all.take(k + 1).last() == all[k]);
            }
            put_by_pid(&mut out, x);
        }
    }
    assert(all.take(all.len() as int) =~= all);
    out
}

/// The candidates that a scan has found so far.
#[derive(Debug)]
pub struct WorkloadScan {
    found: Vec<RunningWorkload>,
}

/// The candidates after one more process was looked up. The first two processes
/// of the system are never candidates, and no more are taken than the limit.
pub open spec fn looked_up(v: Seq<RunningWorkloadView>, pid: u32, lookup: LookupView) -> Result<
    Seq<RunningWorkloadView>,
    Seq<char>,
> {
    if pid < 2 || v.len() >= MAX_RUNNING_WORKLOADS {
        Ok(v)
    } else {
        match lookup {
            LookupView::Found(p) => Ok(
                match candidate(p) {
                    Some(c) => v.push(c),
                    None => v,
                },
            ),
            LookupView::Skipped => Ok(v),
            LookupView::Broken(e) => Err(e),
        }
    }
}

impl View for WorkloadScan {
    type V = Seq<RunningWorkloadView>;

    closed spec fn view(&self) -> Seq<RunningWorkloadView> {
        seq_view(self.found@)
    }
}

impl WorkloadScan {
    /// A scan that has found nothing.
    pub fn new() -> (s: Self)
        ensures
            s@ == Seq::<RunningWorkloadView>::empty(),
    {
        let s = WorkloadScan { found: Vec::new() };
        assert(s@ =~= Seq::<RunningWorkloadView>::empty());
        s
    }

    /// Whether a process is to be looked up.
    pub fn wants(&self, pid: u32) -> (r: bool)
        ensures
            r == (pid >= 2 && self@.len() < MAX_RUNNING_WORKLOADS),
    {
        pid >= 2 && self.found.len() < MAX_RUNNING_WORKLOADS
    }

    /// Takes in what became of looking a process up.
    pub fn take(&mut self, pid: u32, result: Result<ProcessInfo, PlatformError>) -> (r: Result<
        (),
        String,
    >)
        ensures
            match looked_up(old(self)@, pid, scan_lookup(pid, result)) {
                Ok(v) => r is Ok && final(self)@ == v,
                Err(e) => r is Err && r->Err_0@ == e && final(self)@ == old(self)@,
            },
    {
        if !self.wants(pid) {
            return Ok(());
        }
        match scan_process(pid, result) {
            Err(e) => Err(e),
            Ok(None) => Ok(()),
            Ok(Some(c)) => {
                let ghost before = self@;
                let ghost added = c@;
                self.found.push(c);
                assert(self@ =~= before.push(added));
                Ok(())
            },
        }
    }

    /// The candidates in the order of their process numbers.
    pub fn finish(self) -> (out: Vec<RunningWorkload>)
        ensures
            seq_view(out@) == sorted_by_pid(self@),
    {
        sort_by_pid(self.found)
    }
}

/// The candidates that processes looked up in turn give, or why the scan ends.
pub open spec fn all_looked_up(all: Seq<(u32, LookupView)>, n: nat) -> Result<
    Seq<RunningWorkloadView>,
    Seq<char>,
>
    decreases n,
{
    if n == 0 {
        Ok(Seq::empty())
    } else {
        match all_looked_up(all, (n - 1) as nat) {
            Err(e) => Err(e),
            Ok(v) => looked_up(v, all[n - 1].0, all[n - 1].1),
        }
    }
}

/// Whether looking a process up can end in a way.
pub open spec fn identifies<P: ProcReader>(source: &P, pid: u32, lookup: LookupView) -> bool {
    exists|reply: PlatformResult<ProcessInfo>|
        {
            &&& #[trigger] call_ensures(P::process_identity, (source, pid), reply)
            &&& lookup == scan_lookup(pid, reply)
        }
}

/// Whether the scan still looks the process at position `i` up.
pub open spec fn scan_reaches(all: Seq<(u32, LookupView)>, i: int) -> bool {
    &&& all[i].0 >= 2
    &&& all_looked_up(all, i as nat) is Ok
    &&& all_looked_up(all, i as nat)->Ok_0.len() < MAX_RUNNING_WORKLOADS
}

/// Whether looking the listed processes up in turn can end in these ways. What
/// stands for a process that the scan does not reach does not matter.
pub open spec fn scans<P: ProcReader>(
    source: &P,
    pids: Seq<u32>,
    all: Seq<(u32, LookupView)>,
) -> bool {
    &&& all.len() == pids.len()
    &&& forall|i: int|
        #![trigger all[i]]
        0 <= i < all.len() ==> all[i].0 == pids[i] && (scan_reaches(all, i) ==> identifies(
            source,
            pids[i],
            all[i].1,
        ))
}

/// What a scan gives: the candidates in the order of their process numbers, or
/// why it ends.
pub open spec fn scan_outcome(all: Seq<(u32, LookupView)>) -> Result<
    Seq<RunningWorkloadView>,
    Seq<char>,
> {
    match all_looked_up(all, all.len()) {
        Ok(v) => Ok(sorted_by_pid(v)),
        Err(e) => Err(e),
    }
}

/// The view of what a scan gives.
pub open spec fn scan_view(r: Result<Vec<RunningWorkload>, String>) -> Result<
    Seq<RunningWorkloadView>,
    Seq<char>,
> {
    match r {
        Ok(v) => Ok(seq_view(v@)),
        Err(e) => Err(e@),
    }
}

/// Whether scanning the listed processes can end in a way.
pub open spec fn scan_gives<P: ProcReader>(
    source: &P,
    pids: Seq<u32>,
    outcome: Result<Seq<RunningWorkloadView>, Seq<char>>,
) -> bool {
    exists|all: Seq<(u32, LookupView)>|
        {
            &&& #[trigger] scans(source, pids, all)
            &&& outcome == scan_outcome(all)
        }
}

/// Looks a process up, where the scan wants it, and takes in what became of it.
fn scan_one<P: ProcReader>(source: &P, scan: &mut WorkloadScan, pid: u32) -> (r: Result<(), String>)
    ensures
        exists|seen: LookupView|
            {
                &&& pid >= 2 && old(scan)@.len() < MAX_RUNNING_WORKLOADS ==> identifies(
                    source,
                    pid,
                    seen,
                )
                &&& match #[trigger] looked_up(old(scan)@, pid, seen) {
                    Ok(v) => r is Ok && final(scan)@ == v,
                    Err(e) => r is Err && r->Err_0@ == e && final(scan)@ == old(scan)@,
                }
            },
{
    let ghost before = scan@;
    if !scan.wants(pid) {
        assert(looked_up(before, pid, LookupView::Skipped) is Ok);
        return Ok(());
    }
    let result = source.process_identity(pid);
    let ghost seen = scan_lookup(pid, result);
    assert(call_ensures(P::process_identity, (source, pid), result));
    assert(identifies(source, pid, seen));
    scan.take(pid, result)
}

/// Looks the listed processes up in turn and lists the candidates in the order
/// of their process numbers.
fn scan_listed<P: ProcReader>(source: &P, processes: &Vec<u32>) -> (r: Result<
    Vec<RunningWorkload>,
    String,
>)
    ensures
        scan_gives(source, processes@, scan_view(r)),
{
    let mut scan = WorkloadScan::new();
    let ghost mut all: Seq<(u32, LookupView)> = Seq::empty();
    let mut i: usize = 0;
    while i < processes.len()
        invariant
            i <= processes@.len(),
            scans(source, processes@.take(i as int), all),
            all_looked_up(all, all.len()) == Ok::<Seq<RunningWorkloadView>, Seq<char>>(scan@),
        decreases processes@.len() - i,
    {
        let pid: u32 = processes[i];
        let ghost before = scan@;
        let step = scan_one(source, &mut scan, pid);
        proof {
            let seen = choose|seen: LookupView|
                {
                    &&& pid >= 2 && before.len() < MAX_RUNNING_WORKLOADS ==> identifies(
                        source,
                        pid,
                        seen,
                    )
                    &&& match #[trigger] looked_up(before, pid, seen) {
                        Ok(v) => step is Ok && scan@ == v,
                        Err(e) => step is Err && step->Err_0@ == e && scan@ == before,
                    }
                };
            assert(processes@.take(i + 1) =~= processes@.take(i as int).push(pid));
            scan_extends(source, processes@.take(i as int), all, pid, seen);
            all = all.push((pid, seen));
        }
        if let Err(e) = step {
            proof {
                scan_ends(source, processes@, all, e@);
            }
            return Err(e);
        }
        i = i + 1;
    }
    assert(processes@.take(i as int) =~= processes@);
    Ok(scan.finish())
}

/// Lists the processes, looks them up in turn and lists the candidates in the
/// order of their process numbers.
pub fn scan_running_workloads<P: ProcReader>(source: &P) -> (r: Result<Vec<RunningWorkload>, String>)
    ensures
        exists|listing: PlatformResult<Vec<u32>>|
            {
                &&& #[trigger] call_ensures(P::list_processes, (source,), listing)
                &&& match listing {
                    Err(e) => scan_view(r) == Err::<Seq<RunningWorkloadView>, Seq<char>>(
                        "list procfs processes: "@ + e@.text(),
                    ),
                    Ok(pids) => scan_gives(source, pids@, scan_view(r)),
                }
            },
{
    let listing = source.list_processes();
    assert(call_ensures(P::list_processes, (source,), listing));
    match listing {
        Ok(processes) => scan_listed(source, &processes),
        Err(e) => {
            let why = e.message();
            Err(cat2("list procfs processes: ", why.as_str()))
        },
    }
}

/// One more process that is looked up, or that the scan does not reach.
proof fn scan_extends<P: ProcReader>(
    source: &P,
    pids: Seq<u32>,
    all: Seq<(u32, LookupView)>,
    pid: u32,
    seen: LookupView,
)
    requires
        scans(source, pids, all),
        all_looked_up(all, all.len()) is Ok,
        pid >= 2 && all_looked_up(all, all.len())->Ok_0.len() < MAX_RUNNING_WORKLOADS
            ==> identifies(source, pid, seen),
    ensures
        scans(source, pids.push(pid), all.push((pid, seen))),
        all_looked_up(all.push((pid, seen)), all.len() + 1) == looked_up(
            all_looked_up(all, all.len())->Ok_0,
            pid,
            seen,
        ),
{
    let next = all.push((pid, seen));
    lookups_extend(all, next, all.len());
    assert forall|i: int|
        #![trigger next[i]]
        0 <= i < next.len() implies next[i].0 == pids.push(pid)[i] && (scan_reaches(next, i)
        ==> identifies(source, pids.push(pid)[i], next[i].1)) by {
        if i < all.len() {
            lookups_extend(all, next, i as nat);
            assert(next[i] == all[i]);
        }
    }
}

/// A scan that has failed reaches none of the processes that are left.
proof fn scan_ends<P: ProcReader>(
    source: &P,
    pids: Seq<u32>,
    all: Seq<(u32, LookupView)>,
    why: Seq<char>,
)
    requires
        all.len() <= pids.len(),
        scans(source, pids.take(all.len() as int), all),
        all_looked_up(all, all.len()) == Err::<Seq<RunningWorkloadView>, Seq<char>>(why),
    ensures
        exists|whole: Seq<(u32, LookupView)>|
            {
                &&& #[trigger] scans(source, pids, whole)
                &&& scan_outcome(whole) == Err::<Seq<RunningWorkloadView>, Seq<char>>(why)
            },
    decreases pids.len() - all.len(),
{
    let n = all.len();
    if n == pids.len() {
        assert(pids.take(n as int) =~= pids);
    } else {
        let next = all.push((pids[n as int], LookupView::Skipped));
        lookups_extend(all, next, n);
        assert(all_looked_up(next, n + 1) == all_looked_up(all, n));
        let listed = pids.take(next.len() as int);
        assert forall|i: int|
            #![trigger next[i]]
            0 <= i < next.len() implies next[i].0 == listed[i] && (scan_reaches(next, i)
            ==> identifies(source, listed[i], next[i].1)) by {
            if i < n {
                lookups_extend(all, next, i as nat);
                assert(next[i] == all[i]);
                assert(listed[i] == pids.take(n as int)[i]);
            }
        }
        scan_ends(source, pids, next, why);
    }
}

proof fn lookups_extend(a: Seq<(u32, LookupView)>, b: Seq<(u32, LookupView)>, n: nat)
    requires
        n <= a.len(),
        a.is_prefix_of(b),
    ensures
        all_looked_up(a, n) == all_looked_up(b, n),
    decreases n,
{
    if n > 0 {
        lookups_extend(a, b, (n - 1) as nat);
        assert(b[n - 1] == a[n - 1]);
    }
}

/// A scan lists no more candidates than the limit, each of them a process that
/// was found and matched, in the order of their numbers.
pub proof fn scans_are_bounded(all: Seq<(u32, LookupView)>, n: nat)
    requires
        n <= all.len(),
        all_looked_up(all, n) is Ok,
    ensures
        ({
            let v = all_looked_up(all, n)->Ok_0;
            &&& v.len() <= MAX_RUNNING_WORKLOADS
            &&& by_pid(sorted_by_pid(v))
            &&& forall|i: int|
                0 <= i < v.len() ==> exists|p: ProcessView|
                    #![trigger candidate(p)]
                    candidate(p) == Some(#[trigger] v[i])
        }),
    decreases n,
{
    let v = all_looked_up(all, n)->Ok_0;
    sorting_keeps_candidates(v);
    if n > 0 {
        scans_are_bounded(all, (n - 1) as nat);
        let before = all_looked_up(all, (n - 1) as nat)->Ok_0;
        assert forall|i: int| 0 <= i < v.len() implies exists|p: ProcessView|
            #![trigger candidate(p)]
            candidate(p) == Some(#[trigger] v[i]) by {
            if i < before.len() {
                assert(v[i] == before[i]);
            } else {
                let p = all[n - 1].1->Found_0;
                assert(candidate(p) == Some(v[i]));
            }
        }
    }
}

/// Whether the active workload was selected by the user rather than by focus.
pub open spec fn explicit(active: ActiveWorkloadView) -> bool {
    active.present && active.source == "explicit"@
}

/// Whether a cached row may stay beside the active workload: a row of a reused
/// process number may not.
pub open spec fn row_stays(row: RunningWorkloadView, active: ActiveWorkloadView) -> bool {
    !explicit(active) || row.identity.pid != active.identity.pid || row.identity == active.identity
}

/// A row as shown: only the row of an explicitly selected workload is active.
pub open spec fn shown_row(
    row: RunningWorkloadView,
    active: ActiveWorkloadView,
    scheduler: SchedulerStatusView,
) -> RunningWorkloadView {
    let is_active = explicit(active) && row.identity == active.identity;
    RunningWorkloadView {
        active: is_active,
        scheduler: if is_active {
            scheduler
        } else {
            no_scheduler()
        },
        ..row
    }
}

/// The rows that are shown of the cached ones, in order.
pub open spec fn shown_rows(
    rows: Seq<RunningWorkloadView>,
    active: ActiveWorkloadView,
    scheduler: SchedulerStatusView,
    caller_uid: u32,
) -> Seq<RunningWorkloadView>
    decreases rows.len(),
{
    if rows.len() == 0 {
        rows
    } else {
        let before = shown_rows(rows.drop_last(), active, scheduler, caller_uid);
        let row = rows.last();
        if row_stays(row, active) && (caller_uid == 0 || row.identity.uid == caller_uid) {
            before.push(shown_row(row, active, scheduler))
        } else {
            before
        }
    }
}

/// Whether some cached row is that of the active workload.
pub open spec fn has_row(rows: Seq<RunningWorkloadView>, identity: WorkloadIdentity) -> bool {
    exists|i: int| 0 <= i < rows.len() && (#[trigger] rows[i]).identity == identity
}

/// The row of an explicitly selected workload that no pattern matches.
pub open spec fn active_row(
    active: ActiveWorkloadView,
    scheduler: SchedulerStatusView,
) -> RunningWorkloadView {
    RunningWorkloadView {
        identity: active.identity,
        name: active.name,
        matched_pattern: "active"@,
        active: true,
        scheduler,
    }
}

/// The rows that a caller gets: those of its own processes, all for the
/// superuser, in the order of process numbers.
pub open spec fn snapshot_rows(
    rows: Seq<RunningWorkloadView>,
    active: ActiveWorkloadView,
    scheduler: SchedulerStatusView,
    caller_uid: u32,
) -> Seq<RunningWorkloadView> {
    let shown = shown_rows(rows, active, scheduler, caller_uid);
    sorted_by_pid(
        if explicit(active) && !has_row(rows, active.identity) && (caller_uid == 0
            || active.identity.uid == caller_uid) {
            shown.push(active_row(active, scheduler))
        } else {
            shown
        },
    )
}

/// The cache of candidates.
#[derive(Debug)]
pub struct RunningWorkloadScanner {
    pub candidates: Vec<RunningWorkload>,
}

impl RunningWorkloadScanner {
    /// An empty cache.
    pub fn new() -> (s: Self)
        ensures
            seq_view(s.candidates@) == Seq::<RunningWorkloadView>::empty(),
    {
        let s = RunningWorkloadScanner { candidates: Vec::new() };
        assert(seq_view(s.candidates@) =~= Seq::<RunningWorkloadView>::empty());
        s
    }

    /// Takes over a scan. A failed scan leaves nothing behind.
    pub fn refresh(&mut self, result: Result<Vec<RunningWorkload>, String>) -> (r: Result<(), String>)
        ensures
            match result {
                Ok(v) => r is Ok && seq_view(final(self).candidates@) == seq_view(v@),
                Err(e) => r is Err && r->Err_0@ == e@ && seq_view(final(self).candidates@) == Seq::<
                    RunningWorkloadView,
                >::empty(),
            },
    {
        match result {
            Ok(v) => {
                self.candidates = v;
                Ok(())
            },
            Err(e) => {
                self.candidates = Vec::new();
                assert(seq_view(self.candidates@) =~= Seq::<RunningWorkloadView>::empty());
                Err(e)
            },
        }
    }

    /// The rows that a caller gets.
    pub fn snapshot(
        &self,
        active: &ActiveWorkload,
        scheduler: &SchedulerStatus,
        caller_uid: u32,
    ) -> (out: Vec<RunningWorkload>)
        ensures
            seq_view(out@) == snapshot_rows(
                seq_view(self.candidates@),
                active@,
                scheduler@,
                caller_uid,
            ),
    {
        let ghost rows = seq_view(self.candidates@);
        let is_explicit = active.present && same(active.source.as_str(), "explicit");
        let mut out: Vec<RunningWorkload> = Vec::new();
        let mut found = false;
        let mut i: usize = 0;
        assert(rows.take(0) =~= Seq::empty());
        assert(seq_view(out@) =~= Seq::empty());
        while i < self.candidates.len()
            invariant
                i <= self.candidates@.len(),
                rows == seq_view(self.candidates@),
                is_explicit == explicit(active@),
                found == has_row(rows.take(i as int), active@.identity),
                seq_view(out@) == shown_rows(
                    rows.take(i as int),
                    active@,
                    scheduler@,
                    caller_uid,
                ),
            decreases self.candidates@.len() - i,
        {
            let row = &self.candidates[i];
            let ghost t = rows.take(i + 1);
            proof {
                assert(t.drop_last() =~= rows.take(i as int));
                assert(t.last() == row@);
                if has_row(t, active@.identity) {
                    let k = choose|k: int| 0 <= k < t.len() && (#[trigger] t[k]).identity
                        == active@.identity;
                    if k < i {
                        assert(rows.take(i as int)[k].identity == active@.identity);
                    }
                }
                if has_row(rows.take(i as int), active@.identity) {
                    let k = choose|k: int|
                        0 <= k < i && (#[trigger] rows.take(i as int)[k]).identity
                            == active@.identity;
                    assert(t[k].identity == active@.identity);
                }
            }
            let same_identity = row.identity == active.identity;
            if same_identity {
                found = true;
                assert(t[i as int].identity == active@.identity);
            }
            let stays = !is_explicit || row.identity.pid != active.identity.pid || same_identity;
            if stays && (caller_uid == 0 || row.identity.uid == caller_uid) {
                let is_active = is_explicit && same_identity;
                let shown = RunningWorkload {
                    identity: row.identity,
                    name: row.name.clone(),
                    matched_pattern: row.matched_pattern.clone(),
                    active: is_active,
                    scheduler: if is_active {
                        copy_scheduler(scheduler)
                    } else {
                        empty_scheduler()
                    },
                };
                let ghost prior = out@;
                out.push(shown);
                assert(seq_view(out@) =~= seq_view(prior).push(shown@));
            }
            i = i + 1;
        }
        assert(rows.take(i as int) =~= rows);
        if is_explicit && !found && (caller_uid == 0 || active.identity.uid == caller_uid) {
            let row = RunningWorkload {
                identity: active.identity,
                name: active.name.clone(),
                matched_pattern: "active".to_owned(),
                active: true,
                scheduler: copy_scheduler(scheduler),
            };
            let ghost prior = out@;
            out.push(row);
            assert(seq_view(out@) =~= seq_view(prior).push(row@));
        }
        sort_by_pid(out)
    }
}

/// A caller other than the superuser only sees its own processes.
pub proof fn callers_see_their_own(
    rows: Seq<RunningWorkloadView>,
    active: ActiveWorkloadView,
    scheduler: SchedulerStatusView,
    caller_uid: u32,
    i: int,
)
    requires
        caller_uid != 0,
        0 <= i < snapshot_rows(rows, active, scheduler, caller_uid).len(),
    ensures
        snapshot_rows(rows, active, scheduler, caller_uid)[i].identity.uid == caller_uid,
{
    let shown = shown_rows(rows, active, scheduler, caller_uid);
    let list = if explicit(active) && !has_row(rows, active.identity) && (caller_uid == 0
        || active.identity.uid == caller_uid) {
        shown.push(active_row(active, scheduler))
    } else {
        shown
    };
    sorting_keeps_candidates(list);
    shown_rows_are_own(rows, active, scheduler, caller_uid);
    let e = sorted_by_pid(list)[i];
    assert(sorted_by_pid(list).contains(e));
    assert(list.contains(e));
    let k = choose|k: int| 0 <= k < list.len() && list[k] == e;
    if k < shown.len() {
        assert(shown[k] == e);
    }
}

proof fn shown_rows_are_own(
    rows: Seq<RunningWorkloadView>,
    active: ActiveWorkloadView,
    scheduler: SchedulerStatusView,
    caller_uid: u32,
)
    requires
        caller_uid != 0,
    ensures
        forall|k: int|
            0 <= k < shown_rows(rows, active, scheduler, caller_uid).len() ==> (#[trigger] shown_rows(
                rows,
                active,
                scheduler,
                caller_uid,
            )[k]).identity.uid == caller_uid,
    decreases rows.len(),
{
    if rows.len() > 0 {
        shown_rows_are_own(rows.drop_last(), active, scheduler, caller_uid);
        let before = shown_rows(rows.drop_last(), active, scheduler, caller_uid);
        let out = shown_rows(rows, active, scheduler, caller_uid);
        assert forall|k: int| 0 <= k < out.len() implies (#[trigger] out[k]).identity.uid
            == caller_uid by {
            if k < before.len() {
                assert(out[k] == before[k]);
            } else {
                assert(out[k] == shown_row(rows.last(), active, scheduler));
            }
        }
    }
}

/// Focus alone makes no row active.
pub proof fn focus_is_not_explicit(
    row: RunningWorkloadView,
    active: ActiveWorkloadView,
    scheduler: SchedulerStatusView,
)
    requires
        active.source != "explicit"@,
    ensures
        !shown_row(row, active, scheduler).active,
        shown_row(row, active, scheduler).scheduler == no_scheduler(),
{
}

/// The errors of the service.
#[derive(Debug)]
pub enum ServiceError {
    InvalidArgument(String),
    NotFound(String),
    NotAuthorized(String),
    Conflict(String),
    Degraded(String),
    ValidationFailed(String),
    Internal(String),
}

/// Whether a service error says the same as a runtime error.
pub open spec fn maps_to(e: ErrorView, s: ServiceError) -> bool {
    match e {
        ErrorView::InvalidArgument(m) => s is InvalidArgument && s->InvalidArgument_0@ == m,
        ErrorView::NotFound(m) => s is NotFound && s->NotFound_0@ == m,
        ErrorView::NotAuthorized(m) => s is NotAuthorized && s->NotAuthorized_0@ == m,
        ErrorView::Conflict(m) => s is Conflict && s->Conflict_0@ == m,
        ErrorView::Degraded(m) => s is Degraded && s->Degraded_0@ == m,
        ErrorView::Validation(m) => s is ValidationFailed && s->ValidationFailed_0@ == m,
        ErrorView::Internal(m) => s is Internal && s->Internal_0@ == m,
    }
}

/// The service error for a runtime error.
pub fn map_runtime_error(error: RuntimeError) -> (s: ServiceError)
    ensures
        maps_to(error@, s),
{
    match error {
        RuntimeError::InvalidArgument(m) => ServiceError::InvalidArgument(m),
        RuntimeError::NotFound(m) => ServiceError::NotFound(m),
        RuntimeError::NotAuthorized(m) => ServiceError::NotAuthorized(m),
        RuntimeError::Conflict(m) => ServiceError::Conflict(m),
        RuntimeError::Degraded(m) => ServiceError::Degraded(m),
        RuntimeError::Validation(m) => ServiceError::ValidationFailed(m),
        RuntimeError::Internal(m) => ServiceError::Internal(m),
    }
}

/// The properties whose changes are signalled one by one.
#[derive(Debug)]
pub struct StateProperties {
    pub config_generation: u64,
    pub mode: String,
    pub effective_profile: String,
    pub dominant_scene: String,
}

/// The view of [`StateProperties`].
pub struct PropertiesView {
    pub config_generation: u64,
    pub mode: Seq<char>,
    pub effective_profile: Seq<char>,
    pub dominant_scene: Seq<char>,
}

impl View for StateProperties {
    type V = PropertiesView;

    open spec fn view(&self) -> PropertiesView {
        PropertiesView {
            config_generation: self.config_generation,
            mode: self.mode@,
            effective_profile: self.effective_profile@,
            dominant_scene: self.dominant_scene@,
        }
    }
}

impl StateProperties {
    /// The properties of a status.
    pub fn capture(status: &crate::api::DaemonStatus) -> (p: Self)
        ensures
            p@ == (PropertiesView {
                config_generation: status@.config_generation,
                mode: status@.mode,
                effective_profile: status@.effective_profile,
                dominant_scene: status@.dominant_scene,
            }),
    {
        StateProperties {
            config_generation: status.config_generation,
            mode: status.mode.clone(),
            effective_profile: status.effective_profile.clone(),
            dominant_scene: status.dominant_scene.clone(),
        }
    }
}

/// What is sent to the bus.
#[derive(Clone, Copy, Debug, PartialEq, Eq, Structural)]
pub enum Signal {
    StateChanged(u64),
    HealthChanged,
    CapabilitiesChanged,
    ConfigGenerationProperty,
    ModeProperty,
    EffectiveProfileProperty,
    DominantSceneProperty,
    HealthProperty,
    DegradedProperty,
    /// Compare the running workloads, and signal where they changed.
    CompareRunningWorkloads,
}

/// What reached the pump.
#[derive(Clone, Copy, Debug, PartialEq, Eq, Structural)]
pub enum PumpEvent {
    StateChanged(u64),
    HealthChanged,
    CapabilitiesChanged,
    /// Events were lost; the given revision is the current one.
    Lagged(u64),
}

/// The signals for changed properties, in order.
pub open spec fn property_signals(last: PropertiesView, current: PropertiesView) -> Seq<Signal> {
    let none = Seq::<Signal>::empty();
    let a = if current.config_generation != last.config_generation {
        none.push(Signal::ConfigGenerationProperty)
    } else {
        none
    };
    let b = if current.mode != last.mode {
        a.push(Signal::ModeProperty)
    } else {
        a
    };
    let c = if current.effective_profile != last.effective_profile {
        b.push(Signal::EffectiveProfileProperty)
    } else {
        b
    };
    if current.dominant_scene != last.dominant_scene {
        c.push(Signal::DominantSceneProperty)
    } else {
        c
    }
}

/// What is sent for an event. After lost events everything is said again, so
/// that no client misses a transition.
pub open spec fn pump_signals(event: PumpEvent, last: PropertiesView, current: PropertiesView) -> Seq<
    Signal,
> {
    match event {
        PumpEvent::StateChanged(revision) => (seq![Signal::StateChanged(revision)]
            + property_signals(last, current)).push(Signal::CompareRunningWorkloads),
        PumpEvent::HealthChanged => seq![
            Signal::HealthChanged,
            Signal::HealthProperty,
            Signal::DegradedProperty,
        ],
        PumpEvent::CapabilitiesChanged => seq![Signal::CapabilitiesChanged],
        PumpEvent::Lagged(revision) => seq![
            Signal::StateChanged(revision),
            Signal::HealthChanged,
            Signal::CapabilitiesChanged,
            Signal::ConfigGenerationProperty,
            Signal::ModeProperty,
            Signal::EffectiveProfileProperty,
            Signal::DominantSceneProperty,
            Signal::HealthProperty,
            Signal::DegradedProperty,
        ],
    }
}

/// Whether an event renews what is known of the properties.
pub open spec fn renews_properties(event: PumpEvent) -> bool {
    event is StateChanged || event is Lagged
}

/// What the pump told the bus last.
#[derive(Debug)]
pub struct SignalPump {
    pub properties: StateProperties,
    pub telemetry_sequence: Option<u64>,
}

impl SignalPump {
    /// Decides what is sent for an event, with the properties as they are now.
    pub fn on_event(&mut self, event: PumpEvent, current: StateProperties) -> (out: Vec<Signal>)
        ensures
            out@ == pump_signals(event, old(self).properties@, current@),
            final(self).properties@ == (if renews_properties(event) {
                current@
            } else {
                old(self).properties@
            }),
            final(self).telemetry_sequence == old(self).telemetry_sequence,
    {
        let mut out: Vec<Signal> = Vec::new();
        match event {
            PumpEvent::StateChanged(revision) => {
                out.push(Signal::StateChanged(revision));
                if current.config_generation != self.properties.config_generation {
                    out.push(Signal::ConfigGenerationProperty);
                }
                if current.mode != self.properties.mode {
                    out.push(Signal::ModeProperty);
                }
                if current.effective_profile != self.properties.effective_profile {
                    out.push(Signal::EffectiveProfileProperty);
                }
                if current.dominant_scene != self.properties.dominant_scene {
                    out.push(Signal::DominantSceneProperty);
                }
                out.push(Signal::CompareRunningWorkloads);
                assert(out@ =~= pump_signals(event, self.properties@, current@));
                self.properties = current;
            },
            PumpEvent::HealthChanged => {
                out.push(Signal::HealthChanged);
                out.push(Signal::HealthProperty);
                out.push(Signal::DegradedProperty);
                assert(out@ =~= pump_signals(event, self.properties@, current@));
            },
            PumpEvent::CapabilitiesChanged => {
                out.push(Signal::CapabilitiesChanged);
                assert(out@ =~= pump_signals(event, self.properties@, current@));
            },
            PumpEvent::Lagged(revision) => {
                out.push(Signal::StateChanged(revision));
                out.push(Signal::HealthChanged);
                out.push(Signal::CapabilitiesChanged);
                out.push(Signal::ConfigGenerationProperty);
                out.push(Signal::ModeProperty);
                out.push(Signal::EffectiveProfileProperty);
                out.push(Signal::DominantSceneProperty);
                out.push(Signal::HealthProperty);
                out.push(Signal::DegradedProperty);
                assert(out@ =~= pump_signals(event, self.properties@, current@));
                self.properties = current;
            },
        }
        out
    }

    /// Whether telemetry is new and has to be sent.
    pub fn on_telemetry(&mut self, sequence: u64) -> (send: bool)
        ensures
            send == (old(self).telemetry_sequence != Some(sequence)),
            final(self).telemetry_sequence == Some(sequence),
            final(self).properties@ == old(self).properties@,
    {
        if self.telemetry_sequence == Some(sequence) {
            return false;
        }
        self.telemetry_sequence = Some(sequence);
        true
    }
}

/// Whether two lists of rows agree.
pub fn same_rows(a: &Vec<RunningWorkload>, b: &Vec<RunningWorkload>) -> (r: bool)
    ensures
        r == (seq_view(a@) == seq_view(b@)),
{
    assert(seq_view(a@).len() == a@.len() && seq_view(b@).len() == b@.len());
    if a.len() != b.len() {
        return false;
    }
    let mut i: usize = 0;
    while i < a.len()
        invariant
            i <= a@.len(),
            a@.len() == b@.len(),
            forall|j: int| 0 <= j < i ==> (#[trigger] a@[j])@ == b@[j]@,
        decreases a@.len() - i,
    {
        let x = &a[i];
        let y = &b[i];
        let same_scheduler = x.scheduler.enabled == y.scheduler.enabled && x.scheduler.matched_rule
            == y.scheduler.matched_rule && x.scheduler.managed_tasks == y.scheduler.managed_tasks
            && x.scheduler.applied_tasks == y.scheduler.applied_tasks && x.scheduler.cgroup_class
            == y.scheduler.cgroup_class && x.scheduler.systemd_unit == y.scheduler.systemd_unit
            && x.scheduler.cgroup_applied == y.scheduler.cgroup_applied && x.scheduler.warning
            == y.scheduler.warning;
        if !(x.identity == y.identity && x.name == y.name && x.matched_pattern == y.matched_pattern
            && x.active == y.active && same_scheduler) {
            assert(seq_view(a@)[i as int] != seq_view(b@)[i as int]);
            return false;
        }
        i = i + 1;
    }
    assert(seq_view(a@) =~= seq_view(b@));
    true
}

/// After lost events every signal is sent again.
pub proof fn lag_is_made_up_for(revision: u64, last: PropertiesView, current: PropertiesView)
    ensures
        ({
            let s = pump_signals(PumpEvent::Lagged(revision), last, current);
            &&& s.contains(Signal::StateChanged(revision))
            &&& s.contains(Signal::HealthChanged)
            &&& s.contains(Signal::CapabilitiesChanged)
        }),
{
    let s = pump_signals(PumpEvent::Lagged(revision), last, current);
    assert(s[0] == Signal::StateChanged(revision));
    assert(s[1] == Signal::HealthChanged);
    assert(s[2] == Signal::CapabilitiesChanged);
}

/// A call on the exported object that changes something or tells of processes.
#[derive(Clone, Copy, Debug, PartialEq, Eq, Structural)]
pub enum ServiceCall {
    ListRunningWorkloads,
    SetMode,
    /// Whether the request asks for a mode.
    SetActiveWorkload { with_mode: bool },
    ClearActiveWorkload,
    SetForegroundProcess,
    ClearForegroundProcess,
    SetFrequencyOverrides,
    ClearFrequencyOverrides,
    ReloadConfig,
    SetAppRule,
    RemoveAppRule,
}

/// What a caller must show for a call.
#[derive(Clone, Copy, Debug, PartialEq, Eq, Structural)]
pub enum Permission {
    /// Who it is.
    Identity,
    /// Who it is, and that it may control the runtime.
    IdentityAndControl,
    /// That it may control the runtime.
    Control,
    /// That it has an active local session.
    ActiveSession,
    /// That it may administer the system.
    Administration,
}

/// What a caller must show for a call. A workload may be named by anybody; the
/// mode that it should have may not.
pub open spec fn permission_of(call: ServiceCall) -> Permission {
    match call {
        ServiceCall::ListRunningWorkloads => Permission::Identity,
        ServiceCall::ClearActiveWorkload => Permission::Identity,
        ServiceCall::ClearForegroundProcess => Permission::Identity,
        ServiceCall::SetActiveWorkload { with_mode } => if with_mode {
            Permission::IdentityAndControl
        } else {
            Permission::Identity
        },
        ServiceCall::SetMode => Permission::Control,
        ServiceCall::SetForegroundProcess => Permission::ActiveSession,
        ServiceCall::SetFrequencyOverrides => Permission::Administration,
        ServiceCall::ClearFrequencyOverrides => Permission::Administration,
        ServiceCall::ReloadConfig => Permission::Administration,
        ServiceCall::SetAppRule => Permission::Administration,
        ServiceCall::RemoveAppRule => Permission::Administration,
    }
}

/// What a caller must show for a call. A workload may be named by anybody; the
/// mode that it should have may not.
pub fn required_permission(call: ServiceCall) -> (p: Permission)
    ensures
        p == permission_of(call),
{
    match call {
        ServiceCall::ListRunningWorkloads | ServiceCall::ClearActiveWorkload
        | ServiceCall::ClearForegroundProcess => Permission::Identity,
        ServiceCall::SetActiveWorkload { with_mode } => if with_mode {
            Permission::IdentityAndControl
        } else {
            Permission::Identity
        },
        ServiceCall::SetMode => Permission::Control,
        ServiceCall::SetForegroundProcess => Permission::ActiveSession,
        ServiceCall::SetFrequencyOverrides | ServiceCall::ClearFrequencyOverrides
        | ServiceCall::ReloadConfig | ServiceCall::SetAppRule
        | ServiceCall::RemoveAppRule => Permission::Administration,
    }
}

} // verus!
