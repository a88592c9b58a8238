//! The Linux environment as a whole, and the report of a probe.

use vstd::prelude::*;
use crate::cpuset::CpuIds;
use crate::paths::{join, joined};
use crate::platform::{
    CpuTimeSnapshot, IoFailure, IoKind, PlatformError, PlatformErrorView, PlatformResult,
    ThermalSample,
};
use crate::text::{
    chars_of, lines, lines_of, opt_text, parted, same, split_once, string_of, texts, trim, trimmed,
};
use super::discovery::{DeviceCapabilities, FrequencyTargetPaths, LinuxDiscovery};
use super::procfs::LinuxProc;
use super::scheduler::{parse_cpu_list, parsed_cpu_list};
use super::sysfs::{allowlist, RootedSysfs, SysfsView};

verus! {

/// Physical roots used by the Linux adapters. Explicit roots let discovery run
/// on fixtures.
#[derive(Debug, PartialEq, Eq)]
pub struct SystemRoots {
    pub sys: String,
    pub proc: String,
    pub etc: String,
}

impl SystemRoots {
    /// Host Linux roots.
    pub fn host() -> (r: Self)
        ensures
            r.sys@ == "/sys"@,
            r.proc@ == "/proc"@,
            r.etc@ == "/etc"@,
    {
        SystemRoots { sys: "/sys".to_owned(), proc: "/proc".to_owned(), etc: "/etc".to_owned() }
    }

    /// Roots below a self-contained fixture directory.
    pub fn below(root: &str) -> (r: Self)
        ensures
            r.sys@ == joined(root@, "sys"@),
            r.proc@ == joined(root@, "proc"@),
            r.etc@ == joined(root@, "etc"@),
    {
        SystemRoots { sys: join(root, "sys"), proc: join(root, "proc"), etc: join(root, "etc") }
    }
}

/// Where the kernel lists the CPUs that are online.
pub const ONLINE_CPUS: &'static str = "/sys/devices/system/cpu/online";

/// The adapters of one environment. Its sysfs adapter is read-only.
#[derive(Debug)]
pub struct LinuxEnvironment {
    roots: SystemRoots,
    sysfs: RootedSysfs,
    procfs: LinuxProc,
}

/// The paths that the first `n` targets may write: both ends of each window.
pub open spec fn window_paths(targets: Seq<FrequencyTargetPaths>, n: nat) -> Seq<Seq<char>>
    decreases n,
{
    if n == 0 {
        Seq::empty()
    } else {
        window_paths(targets, (n - 1) as nat).push(targets[n - 1].minimum@).push(
            targets[n - 1].maximum@,
        )
    }
}

/// The paths that an actuator on these targets may write.
pub fn actuator_paths(targets: &Vec<FrequencyTargetPaths>) -> (out: Vec<String>)
    ensures
        texts(out@) == window_paths(targets@, targets@.len()),
{
    let mut out: Vec<String> = Vec::new();
    let mut i: usize = 0;
    assert(texts(out@) =~= Seq::empty());
    while i < targets.len()
        invariant
            i <= targets@.len(),
            texts(out@) == window_paths(targets@, i as nat),
        decreases targets@.len() - i,
    {
        let ghost before = texts(out@);
        out.push(targets[i].minimum.as_str().to_owned());
        out.push(targets[i].maximum.as_str().to_owned());
        assert(texts(out@) =~= before.push(targets@[i as int].minimum@).push(
            targets@[i as int].maximum@,
        ));
        i = i + 1;
    }
    out
}

impl LinuxEnvironment {
    /// The roots as they were given.
    pub closed spec fn roots_view(&self) -> SystemRoots {
        self.roots
    }

    /// The sysfs adapter.
    pub closed spec fn sysfs_view(&self) -> SysfsView {
        self.sysfs@
    }

    /// The canonical procfs root.
    pub closed spec fn procfs_root(&self) -> Seq<char> {
        self.procfs.root_view()
    }

    /// An environment on roots and what the system made of them. Each of them has
    /// to exist. The contained sysfs adapter is deliberately read-only.
    pub fn new(
        roots: SystemRoots,
        canonical_sys: Result<String, IoFailure>,
        canonical_proc: Result<String, IoFailure>,
        canonical_etc: Result<String, IoFailure>,
    ) -> (r: PlatformResult<Self>)
        ensures
            match (canonical_sys, canonical_proc, canonical_etc) {
                (Err(e), _, _) => r is Err && r->Err_0@ == (PlatformErrorView::Io {
                    operation: "canonicalize sysfs root"@,
                    path: roots.sys@,
                    source: e@,
                }),
                (Ok(_), Err(e), _) => r is Err && r->Err_0@ == (PlatformErrorView::Io {
                    operation: "canonicalize procfs root"@,
                    path: roots.proc@,
                    source: e@,
                }),
                (Ok(_), Ok(_), Err(e)) => r is Err && r->Err_0@ == (PlatformErrorView::Io {
                    operation: "canonicalize etc root"@,
                    path: roots.etc@,
                    source: e@,
                }),
                (Ok(sys), Ok(proc_root), Ok(_)) => {
                    &&& r is Ok
                    &&& r->Ok_0.roots_view() == roots
                    &&& r->Ok_0.sysfs_view() == (SysfsView {
                        root: sys@,
                        writable: Seq::empty(),
                        read_paths: Map::empty(),
                    })
                    &&& r->Ok_0.procfs_root() == proc_root@
                },
            },
    {
        match RootedSysfs::read_only(roots.sys.as_str(), canonical_sys) {
            Err(e) => Err(e),
            Ok(sysfs) => match LinuxProc::new(roots.proc.as_str(), canonical_proc) {
                Err(e) => Err(e),
                Ok(procfs) => match canonical_etc {
                    Err(source) => Err(
                        PlatformError::Io {
                            operation: "canonicalize etc root",
                            path: roots.etc,
                            source,
                        },
                    ),
                    Ok(_) => Ok(LinuxEnvironment { roots, sysfs, procfs }),
                },
            },
        }
    }

    /// The host environment, from what the system made of the host roots.
    pub fn host(
        canonical_sys: Result<String, IoFailure>,
        canonical_proc: Result<String, IoFailure>,
        canonical_etc: Result<String, IoFailure>,
    ) -> (r: PlatformResult<Self>)
        ensures
            match r {
                Ok(e) => {
                    &&& canonical_sys is Ok && canonical_proc is Ok && canonical_etc is Ok
                    &&& e.roots_view().sys@ == "/sys"@
                    &&& e.roots_view().proc@ == "/proc"@
                    &&& e.roots_view().etc@ == "/etc"@
                    &&& e.sysfs_view() == (SysfsView {
                        root: canonical_sys->Ok_0@,
                        writable: Seq::empty(),
                        read_paths: Map::empty(),
                    })
                    &&& e.procfs_root() == canonical_proc->Ok_0@
                },
                Err(e) => if canonical_sys is Err {
                    e@ == (PlatformErrorView::Io {
                        operation: "canonicalize sysfs root"@,
                        path: "/sys"@,
                        source: canonical_sys->Err_0@,
                    })
                } else if canonical_proc is Err {
                    e@ == (PlatformErrorView::Io {
                        operation: "canonicalize procfs root"@,
                        path: "/proc"@,
                        source: canonical_proc->Err_0@,
                    })
                } else {
                    canonical_etc is Err && e@ == (PlatformErrorView::Io {
                        operation: "canonicalize etc root"@,
                        path: "/etc"@,
                        source: canonical_etc->Err_0@,
                    })
                },
            },
    {
        LinuxEnvironment::new(SystemRoots::host(), canonical_sys, canonical_proc, canonical_etc)
    }

    /// Physical roots in use.
    pub fn roots(&self) -> (r: &SystemRoots)
        ensures
            *r == self.roots_view(),
    {
        &self.roots
    }

    /// The sysfs adapter, which writes nothing.
    pub fn sysfs(&self) -> (r: &RootedSysfs)
        ensures
            r@ == self.sysfs_view(),
    {
        &self.sysfs
    }

    /// The canonical procfs root.
    pub fn procfs(&self) -> (r: &str)
        ensures
            r@ == self.procfs_root(),
    {
        self.procfs.root()
    }

    /// The CPUs that are online, from what was read of the kernel's list.
    pub fn online_cpus(&self, contents: PlatformResult<String>) -> (r: PlatformResult<CpuIds>)
        ensures
            match contents {
                Err(e) => r is Err && r->Err_0@ == e@,
                Ok(s) => match r {
                    Ok(cpus) => parsed_cpu_list(ONLINE_CPUS@, s@) == Ok::<
                        Set<u32>,
                        PlatformErrorView,
                    >(cpus@),
                    Err(e) => parsed_cpu_list(ONLINE_CPUS@, s@) == Err::<
                        Set<u32>,
                        PlatformErrorView,
                    >(e@),
                },
            },
    {
        match contents {
            Err(e) => Err(e),
            Ok(s) => parse_cpu_list(ONLINE_CPUS, s.as_str()),
        }
    }

    /// A writer for exactly the listed files, as a validated recovery manifest
    /// names them. An empty list gives a read-only writer.
    pub fn open_recovery_sysfs(
        &self,
        canonical: Result<String, IoFailure>,
        allowed: Vec<(String, Result<String, IoFailure>)>,
    ) -> (r: PlatformResult<RootedSysfs>)
        ensures
            match canonical {
                Ok(root) => match r {
                    Ok(s) => {
                        &&& s@.root == root@
                        &&& s@.confined()
                        &&& allowlist(root@, allowed@, allowed@.len()) == Ok::<
                            Seq<Seq<char>>,
                            PlatformErrorView,
                        >(s@.writable)
                    },
                    Err(e) => allowlist(root@, allowed@, allowed@.len()) == Err::<
                        Seq<Seq<char>>,
                        PlatformErrorView,
                    >(e@),
                },
                Err(e) => r is Err && r->Err_0@ == (PlatformErrorView::Io {
                    operation: "canonicalize sysfs root"@,
                    path: self.roots_view().sys@,
                    source: e@,
                }),
            },
    {
        RootedSysfs::with_write_allowlist(self.roots.sys.as_str(), canonical, allowed)
    }

    /// The report of a probe, from what each of its parts gave.
    pub fn probe(
        &self,
        discovery: PlatformResult<LinuxDiscovery>,
        cpu_times: PlatformResult<CpuTimeSnapshot>,
        thermal: PlatformResult<Vec<ThermalSample>>,
        system: PlatformResult<SystemInfo>,
    ) -> (r: PlatformResult<ProbeReport>)
        ensures
            match (discovery, cpu_times, thermal, system) {
                (Err(e), _, _, _) => r == Err::<ProbeReport, PlatformError>(e),
                (_, Err(e), _, _) => r == Err::<ProbeReport, PlatformError>(e),
                (_, _, Err(e), _) => r == Err::<ProbeReport, PlatformError>(e),
                (_, _, _, Err(e)) => r == Err::<ProbeReport, PlatformError>(e),
                (Ok(d), Ok(c), Ok(t), Ok(s)) => r == Ok::<ProbeReport, PlatformError>(
                    ProbeReport {
                        schema_version: 1,
                        system: s,
                        capabilities: d.capabilities,
                        cpu_times: c,
                        thermal: t,
                        warnings: d.warnings,
                    },
                ),
            },
    {
        let discovery = match discovery {
            Err(e) => {
                return Err(e);
            },
            Ok(d) => d,
        };
        let cpu_times = match cpu_times {
            Err(e) => {
                return Err(e);
            },
            Ok(c) => c,
        };
        let thermal = match thermal {
            Err(e) => {
                return Err(e);
            },
            Ok(t) => t,
        };
        match system {
            Err(e) => Err(e),
            Ok(system) => Ok(
                ProbeReport {
                    schema_version: 1,
                    system,
                    capabilities: discovery.capabilities,
                    cpu_times,
                    thermal,
                    warnings: discovery.warnings,
                },
            ),
        }
    }
}

/// The report of a probe.
#[derive(Debug)]
pub struct ProbeReport {
    pub schema_version: u32,
    pub system: SystemInfo,
    pub capabilities: DeviceCapabilities,
    pub cpu_times: CpuTimeSnapshot,
    pub thermal: Vec<ThermalSample>,
    pub warnings: Vec<String>,
}

/// Non-sensitive operating-system metadata.
#[derive(Debug, Default, PartialEq, Eq)]
pub struct SystemInfo {
    pub architecture: String,
    pub kernel_release: Option<String>,
    pub os_id: Option<String>,
    pub os_pretty_name: Option<String>,
    pub boot_id: Option<String>,
}

/// What an optional file says: its text without surrounding white space. A
/// missing, forbidden or blank file says nothing.
pub open spec fn optional_text(path: Seq<char>, contents: Result<String, IoFailure>) -> Result<
    Option<Seq<char>>,
    PlatformErrorView,
> {
    match contents {
        Ok(s) => Ok(
            if trimmed(s@).len() == 0 {
                None
            } else {
                Some(trimmed(s@))
            },
        ),
        Err(e) => if e.kind == IoKind::NotFound || e.kind == IoKind::PermissionDenied {
            Ok(None)
        } else {
            Err(
                PlatformErrorView::Io {
                    operation: "read system metadata"@,
                    path,
                    source: e@,
                },
            )
        },
    }
}

/// What an optional file says.
pub fn read_optional_trimmed(path: &str, contents: Result<String, IoFailure>) -> (r: PlatformResult<
    Option<String>,
>)
    ensures
        match r {
            Ok(v) => optional_text(path@, contents) == Ok::<Option<Seq<char>>, PlatformErrorView>(
                opt_text(v),
            ),
            Err(e) => optional_text(path@, contents) == Err::<Option<Seq<char>>, PlatformErrorView>(
                e@,
            ),
        },
{
    match contents {
        Ok(s) => {
            let value = trim(s.as_str());
            if value.as_str().is_empty() {
                Ok(None)
            } else {
                Ok(Some(value))
            }
        },
        Err(e) => if e.kind == IoKind::NotFound || e.kind == IoKind::PermissionDenied {
            Ok(None)
        } else {
            Err(PlatformError::io("read system metadata", path, e))
        },
    }
}

/// Whether a value stands between two of the given quotes.
pub open spec fn quoted_by(value: Seq<char>, quote: char) -> bool {
    value.len() >= 2 && value[0] == quote && value.last() == quote
}

/// A value without the quotes around it.
pub open spec fn unquoted(value: Seq<char>) -> Seq<char> {
    if quoted_by(value, '"') || quoted_by(value, '\'') {
        value.subrange(1, value.len() - 1)
    } else {
        value
    }
}

/// A value without the quotes around it.
pub fn unquote_os_release(value: &str) -> (out: String)
    ensures
        out@ == unquoted(value@),
{
    let chars = chars_of(value);
    let n: usize = chars.len();
    if n >= 2 && ((chars[0] == '"' && chars[n - 1] == '"') || (chars[0] == '\'' && chars[n - 1]
        == '\'')) {
        string_of(&chars, 1, n - 1)
    } else {
        value.to_owned()
    }
}

/// The value of the last of the first `n` lines that sets a key.
pub open spec fn release_value(all: Seq<Seq<char>>, n: nat, key: Seq<char>) -> Option<Seq<char>>
    decreases n,
{
    if n == 0 {
        None
    } else {
        match parted(all[n - 1], '=') {
            Some((k, v)) if k == key => Some(unquoted(trimmed(v))),
            _ => release_value(all, (n - 1) as nat, key),
        }
    }
}

/// The identifier and the full name of a system.
pub fn parse_os_release(contents: &str) -> (r: (Option<String>, Option<String>))
    ensures
        opt_text(r.0) == release_value(lines_of(contents@), lines_of(contents@).len(), "ID"@),
        opt_text(r.1) == release_value(
            lines_of(contents@),
            lines_of(contents@).len(),
            "PRETTY_NAME"@,
        ),
{
    let all = lines(contents);
    let ghost v = lines_of(contents@);
    assert(v.len() == all@.len());
    let mut id: Option<String> = None;
    let mut pretty: Option<String> = None;
    let mut i: usize = 0;
    while i < all.len()
        invariant
            i <= all@.len(),
            v == texts(all@),
            v == lines_of(contents@),
            opt_text(id) == release_value(v, i as nat, "ID"@),
            opt_text(pretty) == release_value(v, i as nat, "PRETTY_NAME"@),
        decreases all@.len() - i,
    {
        assert(v[i as int] == all@[i as int]@);
        proof {
            reveal_strlit("ID");
            reveal_strlit("PRETTY_NAME");
            assert("ID"@.len() != "PRETTY_NAME"@.len());
        }
        if let Some((key, raw)) = split_once(all[i].as_str(), '=') {
            let inner = trim(raw.as_str());
            let value = unquote_os_release(inner.as_str());
            if same(key.as_str(), "ID") {
                id = Some(value);
            } else if same(key.as_str(), "PRETTY_NAME") {
                pretty = Some(value);
            }
        }
        i = i + 1;
    }
    (id, pretty)
}

/// What the metadata files of a system say.
pub fn read_system_info(
    roots: &SystemRoots,
    architecture: String,
    kernel_release: Result<String, IoFailure>,
    boot_id: Result<String, IoFailure>,
    os_release: Result<String, IoFailure>,
) -> (r: PlatformResult<SystemInfo>)
    ensures
        ({
            let kernel = optional_text(
                joined(roots.proc@, "sys/kernel/osrelease"@),
                kernel_release,
            );
            let boot = optional_text(joined(roots.proc@, "sys/kernel/random/boot_id"@), boot_id);
            let release = optional_text(joined(roots.etc@, "os-release"@), os_release);
            match r {
                Ok(s) => {
                    &&& kernel is Ok && boot is Ok && release is Ok
                    &&& s.architecture == architecture
                    &&& opt_text(s.kernel_release) == kernel->Ok_0
                    &&& opt_text(s.boot_id) == boot->Ok_0
                    &&& match release->Ok_0 {
                        Some(text) => {
                            let all = lines_of(text);
                            &&& opt_text(s.os_id) == release_value(all, all.len(), "ID"@)
                            &&& opt_text(s.os_pretty_name) == release_value(
                                all,
                                all.len(),
                                "PRETTY_NAME"@,
                            )
                        },
                        None => s.os_id is None && s.os_pretty_name is None,
                    }
                },
                Err(e) => if kernel is Err {
                    kernel->Err_0 == e@
                } else if boot is Err {
                    boot->Err_0 == e@
                } else {
                    release is Err && release->Err_0 == e@
                },
            }
        }),
{
    let kernel_path = join(roots.proc.as_str(), "sys/kernel/osrelease");
    let kernel_release = match read_optional_trimmed(kernel_path.as_str(), kernel_release) {
        Err(e) => {
            return Err(e);
        },
        Ok(v) => v,
    };
    let boot_path = join(roots.proc.as_str(), "sys/kernel/random/boot_id");
    let boot_id = match read_optional_trimmed(boot_path.as_str(), boot_id) {
        Err(e) => {
            return Err(e);
        },
        Ok(v) => v,
    };
    let release_path = join(roots.etc.as_str(), "os-release");
    let os_release = match read_optional_trimmed(release_path.as_str(), os_release) {
        Err(e) => {
            return Err(e);
        },
        Ok(v) => v,
    };
    let (os_id, os_pretty_name) = match &os_release {
        Some(text) => parse_os_release(text.as_str()),
        None => (None, None),
    };
    Ok(SystemInfo { architecture, kernel_release, os_id, os_pretty_name, boot_id })
}

/// The paths that an actuator may write, each with what the system made of it.
pub open spec fn paired(
    paths: Seq<Seq<char>>,
    results: Seq<Result<String, IoFailure>>,
    pairs: Seq<(String, Result<String, IoFailure>)>,
) -> bool {
    &&& pairs.len() == paths.len()
    &&& forall|i: int|
        0 <= i < pairs.len() ==> (#[trigger] pairs[i]).0@ == paths[i] && pairs[i].1 == results[i]
}

impl LinuxEnvironment {
    /// A writer for exactly the windows of the given targets, with what the
    /// system made of the candidates of their paths, in their order. Making it
    /// writes nothing.
    pub fn open_actuator_sysfs(
        &self,
        canonical: Result<String, IoFailure>,
        targets: &Vec<FrequencyTargetPaths>,
        resolved: Vec<Result<String, IoFailure>>,
    ) -> (r: PlatformResult<RootedSysfs>)
        requires
            resolved@.len() == 2 * targets@.len(),
        ensures
            match canonical {
                Ok(root) => exists|pairs: Seq<(String, Result<String, IoFailure>)>|
                    {
                        &&& #[trigger] paired(
                            window_paths(targets@, targets@.len()),
                            resolved@,
                            pairs,
                        )
                        &&& match r {
                            Ok(s) => s@.root == root@ && s@.confined() && allowlist(
                                root@,
                                pairs,
                                pairs.len(),
                            ) == Ok::<Seq<Seq<char>>, PlatformErrorView>(s@.writable),
                            Err(e) => allowlist(root@, pairs, pairs.len()) == Err::<
                                Seq<Seq<char>>,
                                PlatformErrorView,
                            >(e@),
                        }
                    },
                Err(e) => r is Err && r->Err_0@ == (PlatformErrorView::Io {
                    operation: "canonicalize sysfs root"@,
                    path: self.roots_view().sys@,
                    source: e@,
                }),
            },
    {
        let paths = actuator_paths(targets);
        proof {
            window_count(targets@, targets@.len());
            assert(texts(paths@).len() == paths@.len());
        }
        let mut left = resolved;
        let mut pairs: Vec<(String, Result<String, IoFailure>)> = Vec::new();
        let mut i: usize = 0;
        while i < paths.len()
            invariant
                i <= paths@.len(),
                paths@.len() == resolved@.len(),
                pairs@.len() == i,
                left@ == resolved@.skip(i as int),
                forall|k: int|
                    0 <= k < i ==> (#[trigger] pairs@[k]).0@ == texts(paths@)[k] && pairs@[k].1
                        == resolved@[k],
            decreases paths@.len() - i,
        {
            let found = left.remove(0);
            assert(found == resolved@[i as int]);
            pairs.push((paths[i].as_str().to_owned(), found));
            i = i + 1;
            assert(left@ =~= resolved@.skip(i as int));
        }
        assert(paired(window_paths(targets@, targets@.len()), resolved@, pairs@));
        self.open_recovery_sysfs(canonical, pairs)
    }
}

proof fn window_count(targets: Seq<FrequencyTargetPaths>, n: nat)
    requires
        n <= targets.len(),
    ensures
        window_paths(targets, n).len() == 2 * n,
    decreases n,
{
    if n > 0 {
        window_count(targets, (n - 1) as nat);
    }
}

} // verus!
