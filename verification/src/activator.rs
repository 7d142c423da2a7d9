//! The activator: the protocol that makes one installed, compiled version
//! the one that the bare `php` command runs.
//!
//! The protocol is a state machine. It never touches the system itself: it
//! names the next action, the caller carries the action out and reports
//! what happened, and the machine moves on.

use vstd::prelude::*;
use crate::error::Error;
use crate::layout::{
    binary_path, binary_path_of, pointer_path, pointer_path_spec, version_dir, version_dir_of,
    Platform,
};
use crate::repository::{lemma_one_version_active, pointer_view, InstalledVersion, Lifecycle};

verus! {

/// What asking a binary for its version gave.
#[derive(Clone, Copy, Debug, PartialEq, Eq, Structural)]
pub enum Probe {
    /// The binary ran and ended well.
    Working,
    /// The binary ran and ended badly.
    Faulty,
    /// The binary could not be run.
    Unrunnable,
}

/// What is known of the global pointer.
#[derive(Clone, Copy, Debug, PartialEq, Eq, Structural)]
pub enum PointerState {
    /// Nothing has been learned or done yet.
    Unknown,
    /// A pointer from before is in place.
    Present,
    /// There is no pointer.
    Absent,
    /// The pointer names the binary of the version being activated.
    Placed,
}

/// Where the protocol stands: the answer it waits for, or how it ended.
#[derive(Clone, Copy, Debug, PartialEq, Eq, Structural)]
pub enum Phase {
    /// Waiting to learn whether the version's directory and binary exist.
    Inspecting,
    /// Waiting for the binary's answer to a request for its version.
    Probing,
    /// Waiting to learn whether a global pointer is in place.
    CheckingPointer,
    /// Waiting for the removal of the old pointer.
    Removing,
    /// Waiting for the creation of the new pointer.
    Linking,
    /// Waiting for the search path to be extended.
    UpdatingPath,
    /// Waiting for the answer of the global `php` command.
    Verifying,
    /// The version is active.
    Succeeded,
    /// The protocol stopped.
    Failed(Error),
}

/// What the caller reports back.
#[derive(Clone, Copy, Debug, PartialEq, Eq, Structural)]
pub enum ActivationEvent {
    /// Whether the version's directory and its binary exist.
    Inspected { dir_exists: bool, binary_exists: bool },
    /// What the version's binary answered.
    Probed(Probe),
    /// Whether a global pointer is in place.
    PointerChecked { exists: bool },
    /// Whether the old pointer was removed.
    Removed { ok: bool },
    /// Whether the new pointer was created.
    Linked { ok: bool },
    /// Whether the search path was extended.
    PathUpdated { ok: bool },
    /// What the global `php` command answered.
    Verified(Probe),
}

/// A finished activation. Neither field stands in the way of success: a
/// binary that does not answer is suspicious, not refused.
#[derive(Clone, Copy, Debug, PartialEq, Eq, Structural)]
pub struct Activated {
    /// What the version's binary answered before the switch.
    pub probe: Probe,
    /// What the global `php` command answered after the switch.
    pub check: Probe,
}

/// What the caller has to do next.
#[derive(Debug, PartialEq, Eq)]
pub enum ActivationAction {
    /// Report whether the directory `dir` and the file `binary` exist.
    Inspect { dir: String, binary: String },
    /// Ask `binary` for its version.
    Probe { binary: String },
    /// Report whether anything is in place at `link`.
    CheckPointer { link: String },
    /// Remove what is in place at `link`.
    RemovePointer { link: String },
    /// Create at `link` a symbolic link to `target`.
    CreateLink { link: String, target: String },
    /// Put `dir` in front of the user's search path. Older entries stay
    /// behind it.
    PrependPath { dir: String },
    /// Ask the global `php` command for its version.
    Verify,
    /// Nothing: the protocol has ended, in this way.
    Finish(Result<Activated, Error>),
}

/// An action with its paths as character sequences.
pub enum ActivationActionView {
    Inspect { dir: Seq<char>, binary: Seq<char> },
    Probe { binary: Seq<char> },
    CheckPointer { link: Seq<char> },
    RemovePointer { link: Seq<char> },
    CreateLink { link: Seq<char>, target: Seq<char> },
    PrependPath { dir: Seq<char> },
    Verify,
    Finish(Result<Activated, Error>),
}

impl View for ActivationAction {
    type V = ActivationActionView;

    open spec fn view(&self) -> ActivationActionView {
        match *self {
            ActivationAction::Inspect { dir, binary } => ActivationActionView::Inspect {
                dir: dir@,
                binary: binary@,
            },
            ActivationAction::Probe { binary } => ActivationActionView::Probe { binary: binary@ },
            ActivationAction::CheckPointer { link } => ActivationActionView::CheckPointer {
                link: link@,
            },
            ActivationAction::RemovePointer { link } => ActivationActionView::RemovePointer {
                link: link@,
            },
            ActivationAction::CreateLink { link, target } => ActivationActionView::CreateLink {
                link: link@,
                target: target@,
            },
            ActivationAction::PrependPath { dir } => ActivationActionView::PrependPath {
                dir: dir@,
            },
            ActivationAction::Verify => ActivationActionView::Verify,
            ActivationAction::Finish(outcome) => ActivationActionView::Finish(outcome),
        }
    }
}

impl ActivationEvent {
    /// The event is the report that the phase `phase` waits for.
    pub open spec fn answers(self, phase: Phase) -> bool {
        match (phase, self) {
            (Phase::Inspecting, ActivationEvent::Inspected { .. }) => true,
            (Phase::Probing, ActivationEvent::Probed(_)) => true,
            (Phase::CheckingPointer, ActivationEvent::PointerChecked { .. }) => true,
            (Phase::Removing, ActivationEvent::Removed { .. }) => true,
            (Phase::Linking, ActivationEvent::Linked { .. }) => true,
            (Phase::UpdatingPath, ActivationEvent::PathUpdated { .. }) => true,
            (Phase::Verifying, ActivationEvent::Verified(_)) => true,
            _ => false,
        }
    }
}

impl Phase {
    /// The most reports that the protocol can still take before it ends.
    pub open spec fn steps_left(self) -> nat {
        match self {
            Phase::Inspecting => 6,
            Phase::Probing => 5,
            Phase::CheckingPointer => 4,
            Phase::Removing => 3,
            Phase::Linking => 2,
            Phase::UpdatingPath => 2,
            Phase::Verifying => 1,
            Phase::Succeeded => 0,
            Phase::Failed(_) => 0,
        }
    }
}

impl ActivationActionView {
    /// The action changes the global pointer.
    pub open spec fn touches_pointer(self) -> bool {
        self is RemovePointer || self is CreateLink || self is PrependPath
    }
}

/// The activation of one version.
#[derive(Debug, PartialEq, Eq)]
pub struct Activation {
    pub platform: Platform,
    /// The installation root.
    pub root: String,
    /// The version to activate.
    pub version: String,
    pub phase: Phase,
    pub pointer: PointerState,
    /// What the version's binary answered, once it was asked.
    pub probe: Option<Probe>,
    /// What the global command answered, once it was asked.
    pub check: Option<Probe>,
}

impl Activation {
    /// The state is one that the protocol can be in.
    pub open spec fn wf(self) -> bool {
        match self.phase {
            Phase::Inspecting => self.pointer == PointerState::Unknown && self.probe is None
                && self.check is None,
            Phase::Probing => self.pointer == PointerState::Unknown && self.probe is None
                && self.check is None,
            Phase::CheckingPointer => self.platform == Platform::Unix && self.pointer
                == PointerState::Unknown && self.probe is Some && self.check is None,
            Phase::Removing => self.platform == Platform::Unix && self.pointer
                == PointerState::Present && self.probe is Some && self.check is None,
            Phase::Linking => self.platform == Platform::Unix && self.pointer
                == PointerState::Absent && self.probe is Some && self.check is None,
            Phase::UpdatingPath => self.platform == Platform::Windows && self.pointer
                == PointerState::Unknown && self.probe is Some && self.check is None,
            Phase::Verifying => self.pointer == PointerState::Placed && self.probe is Some
                && self.check is None,
            Phase::Succeeded => self.pointer == PointerState::Placed && self.probe is Some
                && self.check is Some,
            Phase::Failed(Error::NotInstalled) => self.pointer == PointerState::Unknown,
            Phase::Failed(Error::NotCompiled) => self.pointer == PointerState::Unknown,
            Phase::Failed(Error::PointerRemovalDenied) => self.platform == Platform::Unix
                && self.pointer == PointerState::Present,
            Phase::Failed(Error::PointerCreationDenied) => match self.platform {
                Platform::Unix => self.pointer == PointerState::Absent,
                Platform::Windows => self.pointer == PointerState::Unknown,
            },
            Phase::Failed(_) => false,
        }
    }

    /// The protocol has ended.
    pub open spec fn is_final(self) -> bool {
        self.phase is Succeeded || self.phase is Failed
    }

    /// How far the version has come, as far as the protocol has learned
    /// it.
    pub open spec fn lifecycle(self) -> Option<Lifecycle> {
        match self.phase {
            Phase::Inspecting => None,
            Phase::Failed(Error::NotInstalled) => Some(Lifecycle::Uninstalled),
            Phase::Failed(Error::NotCompiled) => Some(Lifecycle::SourceOnly),
            Phase::Verifying => Some(Lifecycle::Active),
            Phase::Succeeded => Some(Lifecycle::Active),
            _ => Some(Lifecycle::Compiled),
        }
    }

    /// The binary that the pointer names, where the protocol has set it.
    pub open spec fn pointer_target(self) -> Option<Seq<char>> {
        if self.pointer == PointerState::Placed {
            Some(binary_path_of(self.platform, self.root@, self.version@))
        } else {
            None
        }
    }

    /// The state after the caller has reported `event`. An event that does
    /// not answer the pending action changes nothing.
    pub open spec fn advance_spec(self, event: ActivationEvent) -> Activation {
        match (self.phase, event) {
            (Phase::Inspecting, ActivationEvent::Inspected { dir_exists, binary_exists }) => {
                if binary_exists {
                    Activation { phase: Phase::Probing, ..self }
                } else if dir_exists {
                    Activation { phase: Phase::Failed(Error::NotCompiled), ..self }
                } else {
                    Activation { phase: Phase::Failed(Error::NotInstalled), ..self }
                }
            },
            (Phase::Probing, ActivationEvent::Probed(answer)) => Activation {
                phase: match self.platform {
                    Platform::Unix => Phase::CheckingPointer,
                    Platform::Windows => Phase::UpdatingPath,
                },
                probe: Some(answer),
                ..self
            },
            (Phase::CheckingPointer, ActivationEvent::PointerChecked { exists }) => {
                if exists {
                    Activation { phase: Phase::Removing, pointer: PointerState::Present, ..self }
                } else {
                    Activation { phase: Phase::Linking, pointer: PointerState::Absent, ..self }
                }
            },
            (Phase::Removing, ActivationEvent::Removed { ok }) => {
                if ok {
                    Activation { phase: Phase::Linking, pointer: PointerState::Absent, ..self }
                } else {
                    Activation { phase: Phase::Failed(Error::PointerRemovalDenied), ..self }
                }
            },
            (Phase::Linking, ActivationEvent::Linked { ok }) => {
                if ok {
                    Activation { phase: Phase::Verifying, pointer: PointerState::Placed, ..self }
                } else {
                    Activation { phase: Phase::Failed(Error::PointerCreationDenied), ..self }
                }
            },
            (Phase::UpdatingPath, ActivationEvent::PathUpdated { ok }) => {
                if ok {
                    Activation { phase: Phase::Verifying, pointer: PointerState::Placed, ..self }
                } else {
                    Activation { phase: Phase::Failed(Error::PointerCreationDenied), ..self }
                }
            },
            (Phase::Verifying, ActivationEvent::Verified(answer)) => Activation {
                phase: Phase::Succeeded,
                check: Some(answer),
                ..self
            },
            _ => self,
        }
    }

    /// The action that the protocol waits for.
    pub open spec fn pending_spec(self) -> ActivationActionView {
        let dir = version_dir_of(self.platform, self.root@, self.version@);
        let binary = binary_path_of(self.platform, self.root@, self.version@);
        match self.phase {
            Phase::Inspecting => ActivationActionView::Inspect { dir, binary },
            Phase::Probing => ActivationActionView::Probe { binary },
            Phase::CheckingPointer => ActivationActionView::CheckPointer {
                link: pointer_path_spec(),
            },
            Phase::Removing => ActivationActionView::RemovePointer { link: pointer_path_spec() },
            Phase::Linking => ActivationActionView::CreateLink {
                link: pointer_path_spec(),
                target: binary,
            },
            Phase::UpdatingPath => ActivationActionView::PrependPath { dir },
            Phase::Verifying => ActivationActionView::Verify,
            Phase::Succeeded => ActivationActionView::Finish(
                Ok(
                    Activated {
                        probe: self.probe.unwrap_or(Probe::Unrunnable),
                        check: self.check.unwrap_or(Probe::Unrunnable),
                    },
                ),
            ),
            Phase::Failed(error) => ActivationActionView::Finish(Err(error)),
        }
    }

    /// The state after the caller has reported `events`, one after the
    /// other.
    pub open spec fn run(self, events: Seq<ActivationEvent>) -> Activation
        decreases events.len(),
    {
        if events.len() == 0 {
            self
        } else {
            self.run(events.drop_last()).advance_spec(events.last())
        }
    }

    /// Begins the activation of `version` below the installation root
    /// `root`.
    pub fn new(platform: Platform, root: &str, version: &str) -> (r: Activation)
        ensures
            r.wf(),
            r.platform == platform,
            r.root@ == root@,
            r.version@ == version@,
            r.phase == Phase::Inspecting,
    {
        Activation {
            platform,
            root: String::from_str(root),
            version: String::from_str(version),
            phase: Phase::Inspecting,
            pointer: PointerState::Unknown,
            probe: None,
            check: None,
        }
    }

    /// Moves on after the caller has reported `event`.
    pub fn advance(self, event: ActivationEvent) -> (r: Activation)
        ensures
            r == self.advance_spec(event),
            self.wf() ==> r.wf(),
    {
        let mut next = self;
        match (next.phase, event) {
            (Phase::Inspecting, ActivationEvent::Inspected { dir_exists, binary_exists }) => {
                if binary_exists {
                    next.phase = Phase::Probing;
                } else if dir_exists {
                    next.phase = Phase::Failed(Error::NotCompiled);
                } else {
                    next.phase = Phase::Failed(Error::NotInstalled);
                }
            },
            (Phase::Probing, ActivationEvent::Probed(answer)) => {
                next.phase = match next.platform {
                    Platform::Unix => Phase::CheckingPointer,
                    Platform::Windows => Phase::UpdatingPath,
                };
                next.probe = Some(answer);
            },
            (Phase::CheckingPointer, ActivationEvent::PointerChecked { exists }) => {
                if exists {
                    next.phase = Phase::Removing;
                    next.pointer = PointerState::Present;
                } else {
                    next.phase = Phase::Linking;
                    next.pointer = PointerState::Absent;
                }
            },
            (Phase::Removing, ActivationEvent::Removed { ok }) => {
                if ok {
                    next.phase = Phase::Linking;
                    next.pointer = PointerState::Absent;
                } else {
                    next.phase = Phase::Failed(Error::PointerRemovalDenied);
                }
            },
            (Phase::Linking, ActivationEvent::Linked { ok }) => {
                if ok {
                    next.phase = Phase::Verifying;
                    next.pointer = PointerState::Placed;
                } else {
                    next.phase = Phase::Failed(Error::PointerCreationDenied);
                }
            },
            (Phase::UpdatingPath, ActivationEvent::PathUpdated { ok }) => {
                if ok {
                    next.phase = Phase::Verifying;
                    next.pointer = PointerState::Placed;
                } else {
                    next.phase = Phase::Failed(Error::PointerCreationDenied);
                }
            },
            (Phase::Verifying, ActivationEvent::Verified(answer)) => {
                next.phase = Phase::Succeeded;
                next.check = Some(answer);
            },
            _ => {},
        }
        next
    }

    /// The action that the protocol waits for.
    pub fn pending(&self) -> (r: ActivationAction)
        ensures
            r@ == self.pending_spec(),
    {
        let root = self.root.as_str();
        let version = self.version.as_str();
        match self.phase {
            Phase::Inspecting => ActivationAction::Inspect {
                dir: version_dir(self.platform, root, version),
                binary: binary_path(self.platform, root, version),
            },
            Phase::Probing => ActivationAction::Probe {
                binary: binary_path(self.platform, root, version),
            },
            Phase::CheckingPointer => ActivationAction::CheckPointer { link: pointer_path() },
            Phase::Removing => ActivationAction::RemovePointer { link: pointer_path() },
            Phase::Linking => ActivationAction::CreateLink {
                link: pointer_path(),
                target: binary_path(self.platform, root, version),
            },
            Phase::UpdatingPath => ActivationAction::PrependPath {
                dir: version_dir(self.platform, root, version),
            },
            Phase::Verifying => ActivationAction::Verify,
            Phase::Succeeded => {
                let probe = match self.probe {
                    Some(answer) => answer,
                    None => Probe::Unrunnable,
                };
                let check = match self.check {
                    Some(answer) => answer,
                    None => Probe::Unrunnable,
                };
                ActivationAction::Finish(Ok(Activated { probe, check }))
            },
            Phase::Failed(error) => ActivationAction::Finish(Err(error)),
        }
    }

    /// How far the version has come, as far as the protocol has learned
    /// it.
    pub fn target_state(&self) -> (r: Option<Lifecycle>)
        ensures
            r == self.lifecycle(),
    {
        match self.phase {
            Phase::Inspecting => None,
            Phase::Failed(Error::NotInstalled) => Some(Lifecycle::Uninstalled),
            Phase::Failed(Error::NotCompiled) => Some(Lifecycle::SourceOnly),
            Phase::Verifying => Some(Lifecycle::Active),
            Phase::Succeeded => Some(Lifecycle::Active),
            _ => Some(Lifecycle::Compiled),
        }
    }

    /// The binary that the pointer names, where the protocol has set it.
    pub fn placed_target(&self) -> (r: Option<String>)
        ensures
            pointer_view(r) == self.pointer_target(),
    {
        match self.pointer {
            PointerState::Placed => Some(
                binary_path(self.platform, self.root.as_str(), self.version.as_str()),
            ),
            _ => None,
        }
    }

    /// Whether the protocol has ended.
    pub fn is_finished(&self) -> (r: bool)
        ensures
            r == self.is_final(),
    {
        match self.phase {
            Phase::Succeeded => true,
            Phase::Failed(_) => true,
            _ => false,
        }
    }
}

/// Every step keeps the state one that the protocol can be in.
pub proof fn lemma_advance_keeps_wf(s: Activation, event: ActivationEvent)
    requires
        s.wf(),
    ensures
        s.advance_spec(event).wf(),
{
}

/// So does every sequence of steps, and it changes neither the platform nor
/// the root nor the version.
pub proof fn lemma_run_keeps_wf(s: Activation, events: Seq<ActivationEvent>)
    requires
        s.wf(),
    ensures
        s.run(events).wf(),
        s.run(events).platform == s.platform,
        s.run(events).root == s.root,
        s.run(events).version == s.version,
    decreases events.len(),
{
    if events.len() > 0 {
        lemma_run_keeps_wf(s, events.drop_last());
        lemma_advance_keeps_wf(s.run(events.drop_last()), events.last());
    }
}

/// Once the protocol has ended, no report changes its state.
pub proof fn lemma_final_stays(s: Activation, events: Seq<ActivationEvent>)
    requires
        s.is_final(),
    ensures
        s.run(events) == s,
    decreases events.len(),
{
    if events.len() > 0 {
        lemma_final_stays(s, events.drop_last());
    }
}

/// Every report that answers the pending action brings the end nearer, and
/// every other report changes nothing: a caller that carries out what is
/// pending and reports it reaches the end after six reports at most.
pub proof fn lemma_every_answer_is_progress(s: Activation, event: ActivationEvent)
    ensures
        event.answers(s.phase) ==> s.advance_spec(event).phase.steps_left() < s.phase.steps_left(),
        !event.answers(s.phase) ==> s.advance_spec(event) == s,
        s.is_final() <==> s.phase.steps_left() == 0,
{
}

/// The new pointer is created only where none is in place: the old one was
/// removed, or there was none.
pub proof fn lemma_link_only_where_none_is(s: Activation)
    requires
        s.wf(),
        s.pending_spec() is CreateLink,
    ensures
        s.pointer == PointerState::Absent,
{
}

/// A version becomes active only from the state compiled: whatever is
/// reported, a version that was not found compiled is not active after the
/// step.
pub proof fn lemma_only_compiled_becomes_active(s: Activation, event: ActivationEvent)
    requires
        s.wf(),
        s.advance_spec(event).lifecycle() == Some(Lifecycle::Active),
    ensures
        s.lifecycle() == Some(Lifecycle::Compiled) || s.lifecycle() == Some(Lifecycle::Active),
{
}

/// A version whose directory exists and whose binary is missing is refused
/// as not compiled, and whatever is reported afterwards, the protocol names
/// no action but to finish with that failure: the pointer is never touched.
pub proof fn lemma_source_only_is_refused(
    s: Activation,
    dir_exists: bool,
    later: Seq<ActivationEvent>,
)
    requires
        s.phase == Phase::Inspecting,
    ensures
        ({
            let refused = s.advance_spec(
                ActivationEvent::Inspected { dir_exists, binary_exists: false },
            );
            &&& refused.phase == Phase::Failed(
                if dir_exists {
                    Error::NotCompiled
                } else {
                    Error::NotInstalled
                },
            )
            &&& refused.run(later) == refused
            &&& refused.run(later).pending_spec() == ActivationActionView::Finish(
                Err(
                    if dir_exists {
                        Error::NotCompiled
                    } else {
                        Error::NotInstalled
                    },
                ),
            )
            &&& refused.run(later).pointer == s.pointer
        }),
{
    let refused = s.advance_spec(ActivationEvent::Inspected { dir_exists, binary_exists: false });
    lemma_final_stays(refused, later);
}

/// Where the old pointer cannot be removed, the protocol stops before it
/// creates a new one.
pub proof fn lemma_failed_removal_stops(s: Activation, later: Seq<ActivationEvent>)
    requires
        s.phase == Phase::Removing,
    ensures
        s.advance_spec(ActivationEvent::Removed { ok: false }).run(later).pending_spec()
            == ActivationActionView::Finish(Err(Error::PointerRemovalDenied)),
{
    lemma_final_stays(s.advance_spec(ActivationEvent::Removed { ok: false }), later);
}

/// The pointer is touched only for a version that was found compiled: the
/// pending action of a state that the protocol can be in removes, creates
/// or extends nothing unless the binary was seen.
pub proof fn lemma_pointer_touched_only_when_compiled(s: Activation)
    requires
        s.wf(),
        s.pending_spec().touches_pointer(),
    ensures
        s.lifecycle() == Some(Lifecycle::Compiled),
{
}

/// After an activation of the version `x` that succeeded, the repository
/// finds `x` active and no other version: the pointer names the binary of
/// `x`, and the binaries of different versions have different paths.
pub proof fn lemma_activation_is_exclusive(
    platform: Platform,
    root: Seq<char>,
    begun: Activation,
    events: Seq<ActivationEvent>,
    x: InstalledVersion,
    y: InstalledVersion,
)
    requires
        begun.wf(),
        begun.platform == platform,
        begun.root@ == root,
        begun.run(events).phase == Phase::Succeeded,
        x.wf(platform, root),
        y.wf(platform, root),
        x.version@ == begun.version@,
        x.has_binary,
    ensures
        begun.run(events).pointer_target() == Some(binary_path_of(platform, root, x.version@)),
        x.is_active(platform, begun.run(events).pointer_target()),
        y.version@ != x.version@ ==> !y.is_active(platform, begun.run(events).pointer_target()),
{
    lemma_run_keeps_wf(begun, events);
    lemma_one_version_active(platform, root, x, y);
}

} // verus!
