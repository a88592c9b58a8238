//! Mode and profile names, runtime errors and receipts.

use vstd::prelude::*;
use crate::model::{ModeSelection, ProfileId, Scene};
use crate::text::{same, texts};

verus! {

/// Errors produced by the state owner.
#[derive(Debug)]
pub enum RuntimeError {
    InvalidArgument(String),
    NotFound(String),
    NotAuthorized(String),
    Conflict(String),
    Degraded(String),
    Validation(String),
    Internal(String),
}

/// The view of [`RuntimeError`].
pub enum ErrorView {
    InvalidArgument(Seq<char>),
    NotFound(Seq<char>),
    NotAuthorized(Seq<char>),
    Conflict(Seq<char>),
    Degraded(Seq<char>),
    Validation(Seq<char>),
    Internal(Seq<char>),
}

impl View for RuntimeError {
    type V = ErrorView;

    open spec fn view(&self) -> ErrorView {
        match self {
            RuntimeError::InvalidArgument(s) => ErrorView::InvalidArgument(s@),
            RuntimeError::NotFound(s) => ErrorView::NotFound(s@),
            RuntimeError::NotAuthorized(s) => ErrorView::NotAuthorized(s@),
            RuntimeError::Conflict(s) => ErrorView::Conflict(s@),
            RuntimeError::Degraded(s) => ErrorView::Degraded(s@),
            RuntimeError::Validation(s) => ErrorView::Validation(s@),
            RuntimeError::Internal(s) => ErrorView::Internal(s@),
        }
    }
}

impl RuntimeError {
    /// The message shown for this error.
    pub open spec fn text(self) -> Seq<char> {
        match self {
            RuntimeError::InvalidArgument(s) => "invalid argument: "@ + s@,
            RuntimeError::NotFound(s) => "resource not found: "@ + s@,
            RuntimeError::NotAuthorized(s) => "not authorized: "@ + s@,
            RuntimeError::Conflict(s) => "state conflict: "@ + s@,
            RuntimeError::Degraded(s) => "mutation unavailable in degraded mode: "@ + s@,
            RuntimeError::Validation(s) => "configuration validation failed: "@ + s@,
            RuntimeError::Internal(s) => "runtime internal error: "@ + s@,
        }
    }

    /// The message shown for this error.
    pub fn message(&self) -> (out: String)
        ensures
            out@ == self.text(),
    {
        let mut out = String::new();
        match self {
            RuntimeError::InvalidArgument(s) => {
                out.append("invalid argument: ");
                out.append(s.as_str());
            },
            RuntimeError::NotFound(s) => {
                out.append("resource not found: ");
                out.append(s.as_str());
            },
            RuntimeError::NotAuthorized(s) => {
                out.append("not authorized: ");
                out.append(s.as_str());
            },
            RuntimeError::Conflict(s) => {
                out.append("state conflict: ");
                out.append(s.as_str());
            },
            RuntimeError::Degraded(s) => {
                out.append("mutation unavailable in degraded mode: ");
                out.append(s.as_str());
            },
            RuntimeError::Validation(s) => {
                out.append("configuration validation failed: ");
                out.append(s.as_str());
            },
            RuntimeError::Internal(s) => {
                out.append("runtime internal error: ");
                out.append(s.as_str());
            },
        }
        assert(out@ =~= self.text());
        out
    }
}

/// What a mutation changed.
#[derive(Debug)]
pub struct MutationReceipt {
    pub generation: u64,
    pub changed_ids: Vec<String>,
    pub message: String,
}

/// The view of [`MutationReceipt`].
pub struct ReceiptView {
    pub generation: u64,
    pub changed_ids: Seq<Seq<char>>,
    pub message: Seq<char>,
}

impl View for MutationReceipt {
    type V = ReceiptView;

    open spec fn view(&self) -> ReceiptView {
        ReceiptView {
            generation: self.generation,
            changed_ids: texts(self.changed_ids@),
            message: self.message@,
        }
    }
}

/// A receipt with the given contents.
pub fn receipt(generation: u64, changed_ids: Vec<String>, message: &str) -> (r: MutationReceipt)
    ensures
        r@ == (ReceiptView { generation, changed_ids: texts(changed_ids@), message: message@ }),
{
    MutationReceipt { generation, changed_ids, message: message.to_owned() }
}

/// The name of a profile.
pub open spec fn profile_text(profile: ProfileId) -> Seq<char> {
    match profile {
        ProfileId::Powersave => "powersave"@,
        ProfileId::Balance => "balance"@,
        ProfileId::Performance => "performance"@,
    }
}

/// The name of a profile.
pub fn profile_name(profile: ProfileId) -> (out: &'static str)
    ensures
        out@ == profile_text(profile),
{
    match profile {
        ProfileId::Powersave => "powersave",
        ProfileId::Balance => "balance",
        ProfileId::Performance => "performance",
    }
}

/// The name of a mode.
pub open spec fn mode_text(mode: ModeSelection) -> Seq<char> {
    match mode {
        ModeSelection::Auto => "auto"@,
        ModeSelection::Forced(p) => profile_text(p),
    }
}

/// The name of a mode.
pub fn mode_name(mode: ModeSelection) -> (out: &'static str)
    ensures
        out@ == mode_text(mode),
{
    match mode {
        ModeSelection::Auto => "auto",
        ModeSelection::Forced(p) => profile_name(p),
    }
}

/// The name of a scene.
pub open spec fn scene_text(scene: Scene) -> Seq<char> {
    match scene {
        Scene::Idle => "idle"@,
        Scene::Touch => "touch"@,
        Scene::Trigger => "trigger"@,
        Scene::Gesture => "gesture"@,
        Scene::Switch => "switch"@,
        Scene::Boost => "boost"@,
        Scene::Wake => "wake"@,
    }
}

/// The name of a scene.
pub fn scene_name(scene: Scene) -> (out: &'static str)
    ensures
        out@ == scene_text(scene),
{
    match scene {
        Scene::Idle => "idle",
        Scene::Touch => "touch",
        Scene::Trigger => "trigger",
        Scene::Gesture => "gesture",
        Scene::Switch => "switch",
        Scene::Boost => "boost",
        Scene::Wake => "wake",
    }
}

/// The profile that `value` names.
pub open spec fn named_profile(value: Seq<char>) -> Option<ProfileId> {
    if value == "powersave"@ {
        Some(ProfileId::Powersave)
    } else if value == "balance"@ {
        Some(ProfileId::Balance)
    } else if value == "performance"@ {
        Some(ProfileId::Performance)
    } else {
        None
    }
}

/// The error for a text that names no profile.
pub open spec fn unknown_profile(value: Seq<char>) -> ErrorView {
    ErrorView::InvalidArgument("unknown profile "@ + value)
}

/// Reads a profile name.
pub fn parse_profile(value: &str) -> (r: Result<ProfileId, RuntimeError>)
    ensures
        match r {
            Ok(p) => named_profile(value@) == Some(p),
            Err(e) => named_profile(value@) is None && e@ == unknown_profile(value@),
        },
{
    if same(value, "powersave") {
        Ok(ProfileId::Powersave)
    } else if same(value, "balance") {
        Ok(ProfileId::Balance)
    } else if same(value, "performance") {
        Ok(ProfileId::Performance)
    } else {
        let mut message = String::new();
        message.append("unknown profile ");
        message.append(value);
        assert(message@ =~= "unknown profile "@ + value@);
        Err(RuntimeError::InvalidArgument(message))
    }
}

/// The mode that `value` names.
pub open spec fn named_mode(value: Seq<char>) -> Option<ModeSelection> {
    if value == "auto"@ {
        Some(ModeSelection::Auto)
    } else {
        match named_profile(value) {
            Some(p) => Some(ModeSelection::Forced(p)),
            None => None,
        }
    }
}

/// Reads a mode name.
pub fn parse_mode(value: &str) -> (r: Result<ModeSelection, RuntimeError>)
    ensures
        match r {
            Ok(m) => named_mode(value@) == Some(m),
            Err(e) => named_mode(value@) is None && e@ == unknown_profile(value@),
        },
{
    if same(value, "auto") {
        Ok(ModeSelection::Auto)
    } else {
        match parse_profile(value) {
            Ok(p) => Ok(ModeSelection::Forced(p)),
            Err(e) => Err(e),
        }
    }
}

/// Every mode is read back from its name.
pub proof fn mode_reads_back(mode: ModeSelection)
    ensures
        named_mode(mode_text(mode)) == Some(mode),
{
    reveal_strlit("auto");
    reveal_strlit("powersave");
    reveal_strlit("balance");
    reveal_strlit("performance");
    assert("auto"@.len() == 4 && "powersave"@.len() == 9 && "balance"@.len() == 7
        && "performance"@.len() == 11);
}

/// A text that names a mode is the name of that mode.
pub proof fn mode_names_are_exact(value: Seq<char>)
    ensures
        match named_mode(value) {
            Some(m) => mode_text(m) == value,
            None => forall|m: ModeSelection| #[trigger] mode_text(m) != value,
        },
{
    assert forall|m: ModeSelection| named_mode(value) is None implies #[trigger] mode_text(m)
        != value by {
        mode_reads_back(m);
    }
}

} // verus!
