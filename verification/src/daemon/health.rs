//! Health findings, and the read-only latch of the actuator.

use vstd::prelude::*;
use crate::api::{HealthStatus, HealthView};
use crate::model::{seq_view, HealthIssue, IssueView};
use crate::number::{decimal_text, format_u64};
use crate::table::texts_ascending;
use crate::text::same;
use super::state::{ActuatorMode, Gates, ActuatorReport, Model, ReportView, RuntimeActor};

verus! {

/// Whether a failure was recorded that only a restart may clear.
pub open spec fn latched(m: Model) -> bool {
    m.failures.restore is Some || m.failures.safety is Some || m.failures.worker is Some
}

/// The state after the actuator was asked. Without an actuator nothing can be
/// mutated; with one, its own refusal or any latched failure forbids it.
pub open spec fn actuator_asked(m: Model, report: ReportView) -> Model {
    let cleared = m.without_issue("actuator.degraded"@);
    if m.gates.actuator is None {
        Model {
            gates: Gates {
                actuator_read_only: true,
                startup_recovery_pending: false,
                ..m.gates
            },
            ..cleared
        }
    } else {
        let noted = match report.refusal {
            Some(reason) => cleared.with_issue(
                "actuator.degraded"@,
                "critical"@,
                "actuator"@,
                reason,
            ),
            None => cleared,
        };
        Model {
            gates: Gates {
                startup_recovery_pending: match report.recovery_required {
                    Some(required) => required,
                    None => true,
                },
                actuator_read_only: report.refusal is Some || latched(m),
                ..m.gates
            },
            ..noted
        }
    }
}

/// The code of a configuration warning.
pub open spec fn warning_code(index: nat) -> Seq<char> {
    "discovery.warning."@ + decimal_text(index)
}

/// The state with the first `n` configuration warnings as findings.
pub open spec fn with_warnings(m: Model, n: nat) -> Model
    decreases n,
{
    if n == 0 {
        m
    } else {
        with_warnings(m, (n - 1) as nat).with_issue(
            warning_code((n - 1) as nat),
            "warning"@,
            "discovery"@,
            m.configuration.warnings[n - 1],
        )
    }
}

/// The state with a finding for each scheduler backend that is configured and
/// missing.
pub open spec fn with_scheduler_findings(m: Model) -> Model {
    let process = match m.gates.actuator {
        Some(a) => a.process_backend,
        None => false,
    };
    let systemd = match m.gates.actuator {
        Some(a) => a.systemd_backend,
        None => false,
    };
    if !m.configuration.policy.scheduler_enabled {
        m
    } else {
        let first = if process {
            m
        } else {
            m.with_issue(
                "scheduler.process_backend"@,
                "warning"@,
                "scheduler"@,
                "task scheduling is configured but its process backend is unavailable"@,
            )
        };
        if m.configuration.policy.has_cgroup_classes && !systemd {
            first.with_issue(
                "scheduler.systemd_backend"@,
                "warning"@,
                "scheduler"@,
                "cgroup classes are configured but the systemd backend is unavailable"@,
            )
        } else {
            first
        }
    }
}

/// The state with the findings that follow from the configuration and from the
/// actuator.
pub open spec fn health_seeded(m: Model, report: ReportView) -> Model {
    let cleared = m.without_issue("scheduler.process_backend"@).without_issue(
        "scheduler.systemd_backend"@,
    );
    let warned = with_warnings(cleared, m.configuration.warnings.len());
    let manned = if m.gates.actuator is None {
        warned.with_issue(
            "actuator.read_only"@,
            "warning"@,
            "actuator"@,
            "daemon was started without a mutation actuator"@,
        )
    } else {
        warned
    };
    actuator_asked(with_scheduler_findings(manned), report)
}

/// Whether a component failed outright. Thermal degradation is handled by the
/// safety envelope and is no failure.
pub open spec fn has_failed(issues: Map<Seq<char>, IssueView>) -> bool {
    exists|k: Seq<char>| #[trigger]
        issues.dom().contains(k) && issues[k].severity == "critical"@ && issues[k].component
            != "thermal"@
}

/// Whether a finding restricts operation.
pub open spec fn restricts(issue: IssueView) -> bool {
    issue.severity == "warning"@ || issue.severity == "error"@ || issue.severity == "critical"@
}

/// Whether operation is restricted.
pub open spec fn is_degraded(m: Model) -> bool {
    m.gates.actuator_read_only || exists|k: Seq<char>| #[trigger]
        m.issues.dom().contains(k) && restricts(m.issues[k])
}

/// The name of the overall health.
pub open spec fn health_state(m: Model) -> Seq<char> {
    if has_failed(m.issues) {
        "failed"@
    } else if is_degraded(m) {
        "degraded"@
    } else {
        "healthy"@
    }
}

/// The sentence that goes with the overall health.
pub open spec fn health_summary(m: Model) -> Seq<char> {
    if has_failed(m.issues) {
        "one or more mandatory components failed"@
    } else if is_degraded(m) {
        "running with one or more safety or capability restrictions"@
    } else {
        "all mandatory components are healthy"@
    }
}

/// The health with its findings in the order of the given codes.
pub open spec fn health_view(m: Model, codes: Seq<Seq<char>>) -> HealthView {
    HealthView {
        state: health_state(m),
        read_only: m.gates.actuator_read_only,
        recovery_pending: m.gates.startup_recovery_pending,
        summary: health_summary(m),
        issues: Seq::new(codes.len(), |i: int| m.issues[codes[i]]),
    }
}

/// What the actuator's answer means at startup: whether it is read-only, and
/// whether a recovery is pending.
pub fn actuator_health_snapshot(report: Option<&ActuatorReport>) -> (r: (bool, bool))
    ensures
        r == match report {
            None => (true, false),
            Some(a) => (
                a@.refusal is Some,
                match a@.recovery_required {
                    Some(required) => required,
                    None => true,
                },
            ),
        },
{
    match report {
        None => (true, false),
        Some(a) => {
            let read_only = match a.mode {
                ActuatorMode::ReadWrite => false,
                _ => true,
            };
            let pending = match a.recovery_required {
                Some(required) => required,
                None => true,
            };
            (read_only, pending)
        },
    }
}

impl RuntimeActor {
    /// Takes over what the actuator says of itself.
    pub fn refresh_actuator_health(&mut self, report: &ActuatorReport)
        ensures
            final(self)@ == actuator_asked(old(self)@, report@),
    {
        self.withdraw("actuator.degraded");
        if self.gates.actuator.is_none() {
            self.gates.actuator_read_only = true;
            self.gates.startup_recovery_pending = false;
            return;
        }
        let latched = self.failures.restore.is_some() || self.failures.safety.is_some()
            || self.failures.worker.is_some();
        let refusal: Option<&String> = match &report.mode {
            ActuatorMode::ReadWrite => None,
            ActuatorMode::ReadOnlyDegraded(reason) => Some(reason),
            ActuatorMode::Unknown(reason) => Some(reason),
        };
        self.gates.actuator_read_only = refusal.is_some() || latched;
        self.gates.startup_recovery_pending = match report.recovery_required {
            Some(required) => required,
            None => true,
        };
        if let Some(reason) = refusal {
            self.report("actuator.degraded", "critical", "actuator", reason.as_str());
        }
    }

    /// Records one finding for each configuration warning.
    fn report_warnings(&mut self)
        ensures
            final(self)@ == with_warnings(old(self)@, old(self)@.configuration.warnings.len()),
    {
        let n: usize = self.configuration.warnings.len();
        let mut i: usize = 0;
        while i < n
            invariant
                i <= n,
                n == old(self)@.configuration.warnings.len(),
                self.configuration == old(self).configuration,
                self@ == with_warnings(old(self)@, i as nat),
            decreases n - i,
        {
            let mut code = String::new();
            code.append("discovery.warning.");
            let number = format_u64(i as u64);
            code.append(number.as_str());
            let message = self.configuration.warnings[i].clone();
            self.health_issues.insert(
                code.clone(),
                crate::model::issue(code.as_str(), "warning", "discovery", message.as_str()),
            );
            i = i + 1;
            proof {
                assert(code@ =~= warning_code((i - 1) as nat));
                assert(self@ =~= with_warnings(old(self)@, i as nat));
            }
        }
    }

    /// Records the findings that follow from the configuration and from the
    /// actuator.
    pub fn seed_health(&mut self, report: &ActuatorReport)
        ensures
            final(self)@ == health_seeded(old(self)@, report@),
    {
        self.withdraw("scheduler.process_backend");
        self.withdraw("scheduler.systemd_backend");
        self.report_warnings();
        proof {
            warnings_keep_the_rest(
                old(self)@.without_issue("scheduler.process_backend"@).without_issue(
                    "scheduler.systemd_backend"@,
                ),
                old(self)@.configuration.warnings.len(),
            );
        }
        if self.gates.actuator.is_none() {
            self.report(
                "actuator.read_only",
                "warning",
                "actuator",
                "daemon was started without a mutation actuator",
            );
        }
        if self.configuration.policy.scheduler_enabled {
            let process_available = match self.gates.actuator {
                Some(a) => a.process_backend,
                None => false,
            };
            let systemd_available = match self.gates.actuator {
                Some(a) => a.systemd_backend,
                None => false,
            };
            if !process_available {
                self.report(
                    "scheduler.process_backend",
                    "warning",
                    "scheduler",
                    "task scheduling is configured but its process backend is unavailable",
                );
            }
            if self.configuration.policy.has_cgroup_classes && !systemd_available {
                self.report(
                    "scheduler.systemd_backend",
                    "warning",
                    "scheduler",
                    "cgroup classes are configured but the systemd backend is unavailable",
                );
            }
        }
        self.refresh_actuator_health(report);
    }

    /// The overall health with all findings in the order of their codes.
    pub fn health(&self) -> (h: HealthStatus)
        ensures
            h@ == health_view(self@, self.health_issues.keys()),
            texts_ascending(self.health_issues.keys()),
            self@.issues.dom() == self.health_issues.keys().to_set(),
    {
        let ghost keys = self.health_issues.keys();
        let ghost all = self@.issues;
        let n: usize = self.health_issues.len();
        let mut issues: Vec<HealthIssue> = Vec::new();
        let mut failed = false;
        let mut restricted = false;
        let mut i: usize = 0;
        while i < n
            invariant
                i <= n,
                keys == self.health_issues.keys(),
                all == self.health_issues@,
                n == keys.len(),
                forall|k: Seq<char>| #[trigger] all.dom().contains(k) <==> keys.contains(k),
                issues@.len() == i,
                forall|j: int| 0 <= j < i ==> (#[trigger] issues@[j])@ == all[keys[j]],
                failed ==> has_failed(all),
                !failed ==> forall|j: int|
                    0 <= j < i ==> !(all[#[trigger] keys[j]].severity == "critical"@
                        && all[keys[j]].component != "thermal"@),
                restricted ==> exists|k: Seq<char>| #[trigger]
                    all.dom().contains(k) && restricts(all[k]),
                !restricted ==> forall|j: int| 0 <= j < i ==> !restricts(all[#[trigger] keys[j]]),
            decreases n - i,
        {
            let item = self.health_issues.value_at(i).duplicate();
            assert(all.dom().contains(keys[i as int])) by {
                assert(keys.contains(keys[i as int]));
            }
            let severity = item.severity.as_str();
            if same(severity, "critical") && !same(item.component.as_str(), "thermal") {
                failed = true;
            }
            if same(severity, "warning") || same(severity, "error") || same(severity, "critical") {
                restricted = true;
            }
            issues.push(item);
            i = i + 1;
        }
        proof {
            assert(all.dom() =~= keys.to_set());
            if has_failed(all) {
                let k = choose|k: Seq<char>| #[trigger]
                    all.dom().contains(k) && all[k].severity == "critical"@ && all[k].component
                        != "thermal"@;
                let j = choose|j: int| 0 <= j < keys.len() && keys[j] == k;
                assert(failed);
            }
            if exists|k: Seq<char>| #[trigger] all.dom().contains(k) && restricts(all[k]) {
                let k = choose|k: Seq<char>| #[trigger] all.dom().contains(k) && restricts(all[k]);
                let j = choose|j: int| 0 <= j < keys.len() && keys[j] == k;
                assert(restricted);
            }
        }
        assert(seq_view(issues@) =~= health_view(self@, keys).issues);
        let degraded = self.gates.actuator_read_only || restricted;
        let state = if failed {
            "failed"
        } else if degraded {
            "degraded"
        } else {
            "healthy"
        };
        let summary = if failed {
            "one or more mandatory components failed"
        } else if degraded {
            "running with one or more safety or capability restrictions"
        } else {
            "all mandatory components are healthy"
        };
        HealthStatus {
            state: state.to_owned(),
            read_only: self.gates.actuator_read_only,
            recovery_pending: self.gates.startup_recovery_pending,
            summary: summary.to_owned(),
            issues,
        }
    }
}

/// Recording warnings changes nothing but the findings.
pub proof fn warnings_keep_the_rest(m: Model, n: nat)
    ensures
        with_warnings(m, n) == (Model { issues: with_warnings(m, n).issues, ..m }),
    decreases n,
{
    if n > 0 {
        warnings_keep_the_rest(m, (n - 1) as nat);
    }
}

/// A latched failure keeps the actuator read-only whatever the actuator itself
/// answers.
pub proof fn latch_survives_the_actuator(m: Model, report: ReportView)
    requires
        latched(m),
    ensures
        actuator_asked(m, report).gates.actuator_read_only,
        latched(actuator_asked(m, report)),
{
}

/// A thermal finding alone never counts as a failure.
pub proof fn thermal_degradation_is_no_failure(issues: Map<Seq<char>, IssueView>)
    requires
        forall|k: Seq<char>| #[trigger]
            issues.dom().contains(k) ==> issues[k].component == "thermal"@,
    ensures
        !has_failed(issues),
{
}

} // verus!
