//! Scheduling states and unit properties as they stand in messages.

use vstd::prelude::*;
use crate::cpuset::{ids_ascending, ids_unique, CpuIds};
use crate::number::{decimal_text, format_i64, format_u64, signed_text};
use crate::platform::{
    ProcessSchedulingState, SchedulingView, SystemdUnitProperties, UnitView,
};
use crate::text::{cat2, cat3};
use super::scheduler::{class_name, class_text};

verus! {

/// The identifiers of a set in ascending order.
pub open spec fn in_order(cpus: Set<u32>) -> Seq<u32> {
    choose|ids: Seq<u32>| #[trigger] ids_ascending(ids) && ids.to_set() == cpus
}

/// The first `n` identifiers, with commas between them.
pub open spec fn listed(ids: Seq<u32>, n: nat) -> Seq<char>
    decreases n,
{
    if n == 0 {
        Seq::empty()
    } else if n == 1 {
        decimal_text(ids[0] as nat)
    } else {
        listed(ids, (n - 1) as nat) + ", "@ + decimal_text(ids[n - 1] as nat)
    }
}

/// A set of CPUs in a message.
pub open spec fn cpus_text(cpus: Set<u32>) -> Seq<char> {
    "{"@ + listed(in_order(cpus), in_order(cpus).len()) + "}"@
}

/// A set of CPUs in a message.
pub fn show_cpus(cpus: &CpuIds) -> (out: String)
    ensures
        out@ == cpus_text(cpus@),
{
    let ids = cpus.to_vec();
    proof {
        let chosen = in_order(cpus@);
        assert(ids_ascending(ids@) && ids@.to_set() == cpus@);
        ids_unique(ids@, chosen);
    }
    let mut list = String::new();
    let mut i: usize = 0;
    assert(list@ =~= listed(ids@, 0));
    while i < ids.len()
        invariant
            i <= ids@.len(),
            list@ == listed(ids@, i as nat),
        decreases ids@.len() - i,
    {
        let number = format_u64(ids[i] as u64);
        list = if i == 0 {
            number
        } else {
            cat3(list.as_str(), ", ", number.as_str())
        };
        i = i + 1;
    }
    cat3("{", list.as_str(), "}")
}

/// An optional text in a message.
pub open spec fn optional_text(inner: Option<Seq<char>>) -> Seq<char> {
    match inner {
        Some(t) => "Some("@ + t + ")"@,
        None => "None"@,
    }
}

/// The text of an optional number.
pub open spec fn optional_number(n: Option<nat>) -> Seq<char> {
    optional_text(
        match n {
            Some(n) => Some(decimal_text(n)),
            None => None,
        },
    )
}

fn show_optional(n: Option<u64>) -> (out: String)
    ensures
        out@ == optional_number(
            match n {
                Some(n) => Some(n as nat),
                None => None,
            },
        ),
{
    match n {
        Some(n) => {
            let number = format_u64(n);
            cat3("Some(", number.as_str(), ")")
        },
        None => "None".to_owned(),
    }
}

/// An optional clamp as a number.
pub open spec fn clamp_number(n: Option<u16>) -> Option<nat> {
    match n {
        Some(n) => Some(n as nat),
        None => None,
    }
}

fn show_clamp(n: Option<u16>) -> (out: String)
    ensures
        out@ == optional_number(clamp_number(n)),
{
    match n {
        Some(n) => show_optional(Some(n as u64)),
        None => show_optional(None),
    }
}

/// An optional priority as a number.
pub open spec fn priority_number(n: Option<u8>) -> Option<nat> {
    match n {
        Some(n) => Some(n as nat),
        None => None,
    }
}

/// A scheduling state in a message.
pub open spec fn scheduling_text(s: SchedulingView) -> Seq<char> {
    "ProcessSchedulingState { affinity: "@ + cpus_text(s.affinity) + ", nice: "@ + signed_text(
        s.nice as int,
    ) + ", policy: "@ + class_text(s.policy) + ", rt_priority: "@ + optional_number(
        priority_number(s.rt_priority),
    ) + ", uclamp_min: "@ + optional_number(clamp_number(s.uclamp_min)) + ", uclamp_max: "@
        + optional_number(clamp_number(s.uclamp_max)) + " }"@
}

/// A scheduling state in a message.
pub fn show_scheduling(s: &ProcessSchedulingState) -> (out: String)
    ensures
        out@ == scheduling_text(s@),
{
    let cpus = show_cpus(&s.affinity);
    let nice = format_i64(s.nice as i64);
    let priority = match s.rt_priority {
        Some(n) => show_optional(Some(n as u64)),
        None => show_optional(None),
    };
    let minimum = show_clamp(s.uclamp_min);
    let maximum = show_clamp(s.uclamp_max);
    let mut out = cat2("ProcessSchedulingState { affinity: ", cpus.as_str());
    out.append(", nice: ");
    out.append(nice.as_str());
    out.append(", policy: ");
    out.append(class_name(s.policy));
    out.append(", rt_priority: ");
    out.append(priority.as_str());
    out.append(", uclamp_min: ");
    out.append(minimum.as_str());
    out.append(", uclamp_max: ");
    out.append(maximum.as_str());
    out.append(" }");
    out
}

/// Unit properties in a message.
pub open spec fn unit_text(u: UnitView) -> Seq<char> {
    "SystemdUnitProperties { cpu_weight: "@ + optional_number(
        match u.cpu_weight {
            Some(n) => Some(n as nat),
            None => None,
        },
    ) + ", allowed_cpus: "@ + optional_text(
        match u.allowed_cpus {
            Some(cpus) => Some(cpus_text(cpus)),
            None => None,
        },
    ) + " }"@
}

/// Unit properties in a message.
pub fn show_unit(u: &SystemdUnitProperties) -> (out: String)
    ensures
        out@ == unit_text(u@),
{
    let weight = show_optional(u.cpu_weight);
    let allowed = match &u.allowed_cpus {
        Some(cpus) => {
            let list = show_cpus(cpus);
            cat3("Some(", list.as_str(), ")")
        },
        None => "None".to_owned(),
    };
    let mut out = cat2("SystemdUnitProperties { cpu_weight: ", weight.as_str());
    out.append(", allowed_cpus: ");
    out.append(allowed.as_str());
    out.append(" }");
    out
}

} // verus!
