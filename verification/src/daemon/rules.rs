//! Application rules: conversion between the client form and the stored form,
//! and the edits that clients may make.

use vstd::prelude::*;
use crate::api::{AppRule, AppRuleView};
use crate::model::{copy_opt, seq_view, ProfileId};
use crate::text::{opt_text, same};
use super::names::{
    named_profile, parse_profile, profile_name, profile_text, unknown_profile, ErrorView,
    RuntimeError,
};

verus! {

/// A stored application rule.
#[derive(Debug)]
pub struct AppRuleConfig {
    pub id: String,
    pub enabled: bool,
    pub priority: i32,
    pub executable: Option<String>,
    pub desktop_id: Option<String>,
    pub comm_regex: Option<String>,
    pub profile: ProfileId,
}

/// The view of [`AppRuleConfig`].
pub struct RuleView {
    pub id: Seq<char>,
    pub enabled: bool,
    pub priority: i32,
    pub executable: Option<Seq<char>>,
    pub desktop_id: Option<Seq<char>>,
    pub comm_regex: Option<Seq<char>>,
    pub profile: ProfileId,
}

impl View for AppRuleConfig {
    type V = RuleView;

    open spec fn view(&self) -> RuleView {
        RuleView {
            id: self.id@,
            enabled: self.enabled,
            priority: self.priority,
            executable: opt_text(self.executable),
            desktop_id: opt_text(self.desktop_id),
            comm_regex: opt_text(self.comm_regex),
            profile: self.profile,
        }
    }
}

/// What a client rule is stored as, or why it is refused. Rules belong to the
/// administrator, match something and name a profile.
pub open spec fn stored_rule(rule: AppRuleView) -> Result<RuleView, ErrorView> {
    if rule.owner_uid != u32::MAX {
        Err(
            ErrorView::InvalidArgument(
                "D-Bus API v1 only supports administrator-owned global application rules"@,
            ),
        )
    } else if rule.executable is None && rule.comm_regex is None {
        Err(
            ErrorView::InvalidArgument(
                "an application rule requires executable and/or comm_regex"@,
            ),
        )
    } else {
        match named_profile(rule.mode) {
            None => Err(unknown_profile(rule.mode)),
            Some(profile) => Ok(
                RuleView {
                    id: rule.id,
                    enabled: rule.enabled,
                    priority: rule.priority,
                    executable: rule.executable,
                    desktop_id: None,
                    comm_regex: rule.comm_regex,
                    profile,
                },
            ),
        }
    }
}

/// Converts a client rule to its stored form.
pub fn api_rule_to_core(rule: &AppRule) -> (r: Result<AppRuleConfig, RuntimeError>)
    ensures
        match r {
            Ok(out) => stored_rule(rule@) == Ok::<RuleView, ErrorView>(out@),
            Err(e) => stored_rule(rule@) == Err::<RuleView, ErrorView>(e@),
        },
{
    if rule.owner_uid != u32::MAX {
        return Err(
            RuntimeError::InvalidArgument(
                "D-Bus API v1 only supports administrator-owned global application rules".to_owned(),
            ),
        );
    }
    if rule.executable.is_none() && rule.comm_regex.is_none() {
        return Err(
            RuntimeError::InvalidArgument(
                "an application rule requires executable and/or comm_regex".to_owned(),
            ),
        );
    }
    match parse_profile(rule.mode.as_str()) {
        Err(e) => Err(e),
        Ok(profile) => Ok(
            AppRuleConfig {
                id: rule.id.clone(),
                enabled: rule.enabled,
                priority: rule.priority,
                executable: copy_opt(&rule.executable),
                desktop_id: None,
                comm_regex: copy_opt(&rule.comm_regex),
                profile,
            },
        ),
    }
}

/// The client form of a stored rule.
pub open spec fn client_rule(rule: RuleView) -> AppRuleView {
    AppRuleView {
        id: rule.id,
        enabled: rule.enabled,
        owner_uid: u32::MAX,
        executable: rule.executable,
        comm_regex: rule.comm_regex,
        mode: profile_text(rule.profile),
        priority: rule.priority,
    }
}

/// Converts a stored rule to its client form.
pub fn core_rule_to_api(rule: &AppRuleConfig) -> (out: AppRule)
    ensures
        out@ == client_rule(rule@),
{
    AppRule {
        id: rule.id.clone(),
        enabled: rule.enabled,
        owner_uid: u32::MAX,
        executable: copy_opt(&rule.executable),
        comm_regex: copy_opt(&rule.comm_regex),
        mode: profile_name(rule.profile).to_owned(),
        priority: rule.priority,
    }
}

/// An accepted client rule comes back unchanged from its stored form.
pub proof fn rule_round_trip(rule: AppRuleView)
    ensures
        match stored_rule(rule) {
            Ok(stored) => client_rule(stored) == rule,
            Err(_) => true,
        },
{
}

/// A stored rule that its client form can express is read back from it.
pub proof fn stored_rule_round_trip(rule: RuleView)
    requires
        rule.desktop_id is None,
        rule.executable is Some || rule.comm_regex is Some,
    ensures
        stored_rule(client_rule(rule)) == Ok::<RuleView, ErrorView>(rule),
{
    super::names::mode_reads_back(crate::model::ModeSelection::Forced(rule.profile));
    reveal_strlit("auto");
    reveal_strlit("powersave");
    reveal_strlit("balance");
    reveal_strlit("performance");
}

/// A copy of a rule.
pub fn copy_rule(rule: &AppRuleConfig) -> (out: AppRuleConfig)
    ensures
        out@ == rule@,
{
    AppRuleConfig {
        id: rule.id.clone(),
        enabled: rule.enabled,
        priority: rule.priority,
        executable: copy_opt(&rule.executable),
        desktop_id: copy_opt(&rule.desktop_id),
        comm_regex: copy_opt(&rule.comm_regex),
        profile: rule.profile,
    }
}

/// The position of the first rule with the given identifier.
pub open spec fn rule_position(rules: Seq<RuleView>, id: Seq<char>) -> Option<int>
    decreases rules.len(),
{
    if rules.len() == 0 {
        None
    } else {
        match rule_position(rules.drop_last(), id) {
            Some(i) => Some(i),
            None => if rules.last().id == id {
                Some(rules.len() - 1)
            } else {
                None
            },
        }
    }
}

/// The rules with `rule` in the place of the first one with its identifier, or
/// at the end.
pub open spec fn with_rule(rules: Seq<RuleView>, rule: RuleView) -> Seq<RuleView> {
    match rule_position(rules, rule.id) {
        Some(i) => rules.update(i, rule),
        None => rules.push(rule),
    }
}

/// The rules with the given one stored.
pub fn store_rule(rules: &Vec<AppRuleConfig>, rule: AppRuleConfig) -> (out: Vec<AppRuleConfig>)
    ensures
        seq_view(out@) == with_rule(seq_view(rules@), rule@),
{
    let mut out: Vec<AppRuleConfig> = Vec::new();
    let mut place: Option<usize> = None;
    let ghost views = seq_view(rules@);
    let mut i: usize = 0;
    assert(views.take(0) =~= Seq::empty());
    while i < rules.len()
        invariant
            i <= rules@.len(),
            views == seq_view(rules@),
            seq_view(out@) == views.take(i as int),
            match place {
                Some(p) => p < i && rule_position(views.take(i as int), rule@.id) == Some(p as int),
                None => rule_position(views.take(i as int), rule@.id) is None,
            },
        decreases rules@.len() - i,
    {
        assert(views.take(i + 1).drop_last() =~= views.take(i as int));
        assert(views.take(i + 1).last() == views[i as int]);
        if place.is_none() && rules[i].id == rule.id {
            place = Some(i);
        }
        out.push(copy_rule(&rules[i]));
        i = i + 1;
        assert(seq_view(out@) =~= views.take(i as int));
    }
    assert(views.take(i as int) =~= views);
    let ghost r = rule@;
    match place {
        Some(p) => {
            assert(out@.len() == seq_view(out@).len());
            out.set(p, rule);
            assert(seq_view(out@) =~= views.update(p as int, r));
        },
        None => {
            out.push(rule);
            assert(seq_view(out@) =~= views.push(r));
        },
    }
    out
}

/// The rules without those of the given identifier.
pub open spec fn without_rule(rules: Seq<RuleView>, id: Seq<char>) -> Seq<RuleView>
    decreases rules.len(),
{
    if rules.len() == 0 {
        Seq::empty()
    } else {
        let before = without_rule(rules.drop_last(), id);
        if rules.last().id == id {
            before
        } else {
            before.push(rules.last())
        }
    }
}

/// The rules without those of the given identifier, and whether there was one.
pub fn drop_rule(rules: &Vec<AppRuleConfig>, id: &str) -> (r: (Vec<AppRuleConfig>, bool))
    ensures
        seq_view(r.0@) == without_rule(seq_view(rules@), id@),
        r.1 == exists|i: int| 0 <= i < rules@.len() && (#[trigger] rules@[i])@.id == id@,
{
    let mut out: Vec<AppRuleConfig> = Vec::new();
    let mut found = false;
    let ghost views = seq_view(rules@);
    let mut i: usize = 0;
    assert(views.take(0) =~= Seq::empty());
    assert(seq_view(out@) =~= Seq::empty());
    while i < rules.len()
        invariant
            i <= rules@.len(),
            views == seq_view(rules@),
            seq_view(out@) == without_rule(views.take(i as int), id@),
            found == exists|j: int| 0 <= j < i && (#[trigger] rules@[j])@.id == id@,
        decreases rules@.len() - i,
    {
        assert(views.take(i + 1).drop_last() =~= views.take(i as int));
        assert(views.take(i + 1).last() == views[i as int]);
        if same(rules[i].id.as_str(), id) {
            found = true;
            assert(rules@[i as int]@.id == id@);
        } else {
            let ghost prior = out@;
            out.push(copy_rule(&rules[i]));
            assert(seq_view(out@) =~= seq_view(prior).push(views[i as int]));
        }
        i = i + 1;
    }
    assert(views.take(i as int) =~= views);
    (out, found)
}

/// A removed rule is gone, and every other rule is kept.
pub proof fn removal_is_exact(rules: Seq<RuleView>, id: Seq<char>, rule: RuleView)
    ensures
        without_rule(rules, id).contains(rule) <==> rules.contains(rule) && rule.id != id,
    decreases rules.len(),
{
    if rules.len() > 0 {
        let init = rules.drop_last();
        removal_is_exact(init, id, rule);
        let before = without_rule(init, id);
        let out = without_rule(rules, id);
        if rules.contains(rule) && rule.id != id {
            let i = choose|i: int| 0 <= i < rules.len() && rules[i] == rule;
            if i < init.len() {
                assert(init[i] == rule);
                let k = choose|k: int| 0 <= k < before.len() && before[k] == rule;
                assert(out[k] == rule);
            } else {
                assert(out[before.len() as int] == rule);
            }
        }
        if out.contains(rule) {
            let k = choose|k: int| 0 <= k < out.len() && out[k] == rule;
            if k < before.len() {
                assert(before[k] == rule);
                let i = choose|i: int| 0 <= i < init.len() && init[i] == rule;
                assert(rules[i] == rule);
            } else {
                assert(rules[rules.len() - 1] == rule);
            }
        }
    }
}

/// A position that was found holds the identifier, and no earlier one does.
proof fn position_is_first(rules: Seq<RuleView>, id: Seq<char>)
    ensures
        match rule_position(rules, id) {
            Some(i) => 0 <= i < rules.len() && rules[i].id == id,
            None => forall|j: int| 0 <= j < rules.len() ==> (#[trigger] rules[j]).id != id,
        },
    decreases rules.len(),
{
    if rules.len() > 0 {
        position_is_first(rules.drop_last(), id);
        assert forall|j: int| rule_position(rules, id) is None && 0 <= j < rules.len() implies (
        #[trigger] rules[j]).id != id by {
            if j < rules.len() - 1 {
                assert(rules.drop_last()[j].id != id);
            }
        }
    }
}

/// A stored rule is among the rules.
pub proof fn stored_rule_is_kept(rules: Seq<RuleView>, rule: RuleView)
    ensures
        with_rule(rules, rule).contains(rule),
{
    position_is_first(rules, rule.id);
    match rule_position(rules, rule.id) {
        Some(i) => {
            assert(with_rule(rules, rule)[i] == rule);
        },
        None => {
            assert(with_rule(rules, rule)[rules.len() as int] == rule);
        },
    }
}

} // verus!
