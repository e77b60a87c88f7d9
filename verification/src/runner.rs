//! The execution backend state machine.
//!
//! One fuzzing run is a fixed sequence of outside steps — check the
//! source out, launch the fuzz tool, poll it, collect its artifact
//! files, remove the workspace — and the decisions between them.
//! [`BackendRun`] holds those decisions: the caller performs the
//! action the machine asks for, reports what happened as a
//! [`BackendEvent`], and the machine answers with the next
//! [`BackendAction`]. Every run ends with the workspace removed:
//! well-formedness ties the terminal phase to a workspace that no
//! longer exists, whichever exit path was taken.

use vstd::prelude::*;

pub mod process;

verus! {

use crate::views_of;

/// How one run of a job ended.
pub enum ExecOutcome {
    /// The fuzz tool ran to its natural end; zero or more artifacts
    /// were collected.
    Artifacts(Vec<Vec<u8>>),
    /// The run was aborted by the cancellation signal: no artifacts.
    Cancelled,
    /// The source could not be checked out; nothing ran and no
    /// workspace was left behind.
    CheckoutFailed,
    /// The fuzz tool could not be launched. Distinct from a run that
    /// produced nothing: nothing ran at all.
    LaunchFailed,
}

/// Mathematical value of an [`ExecOutcome`].
pub ghost enum ExecOutcomeV {
    Artifacts(Seq<Seq<u8>>),
    Cancelled,
    CheckoutFailed,
    LaunchFailed,
}

impl View for ExecOutcome {
    type V = ExecOutcomeV;

    open spec fn view(&self) -> ExecOutcomeV {
        match self {
            ExecOutcome::Artifacts(a) => ExecOutcomeV::Artifacts(views_of(a@)),
            ExecOutcome::Cancelled => ExecOutcomeV::Cancelled,
            ExecOutcome::CheckoutFailed => ExecOutcomeV::CheckoutFailed,
            ExecOutcome::LaunchFailed => ExecOutcomeV::LaunchFailed,
        }
    }
}

impl ExecOutcomeV {
    /// The artifacts an outcome carries: none unless the run ended
    /// naturally. A cancelled run and a clean run with zero crashes
    /// both read as "no artifacts available".
    pub open spec fn artifacts(self) -> Seq<Seq<u8>> {
        match self {
            ExecOutcomeV::Artifacts(a) => a,
            _ => Seq::empty(),
        }
    }
}

/// What the supervision loop decides at one poll tick.
#[derive(Clone, Copy, PartialEq, Eq, Structural, Debug)]
pub enum SuperviseAction {
    /// The child ended on its own: go collect artifacts.
    Collect,
    /// A cancellation signal arrived first: kill the child and treat
    /// the run as aborted.
    Kill,
    /// Neither yet: wait one poll interval and look again.
    Wait,
}

/// The decision of one poll tick. Natural termination is checked
/// first, so a signal that arrives after the child ended no longer
/// aborts anything.
pub open spec fn supervise_decision(child_done: bool, cancel_requested: bool) -> SuperviseAction {
    if child_done {
        SuperviseAction::Collect
    } else if cancel_requested {
        SuperviseAction::Kill
    } else {
        SuperviseAction::Wait
    }
}

/// Decides one poll tick of the supervision loop from what the tick
/// observed: whether the child had terminated, and whether the
/// cancellation signal had arrived.
pub fn supervise_step(child_done: bool, cancel_requested: bool) -> (a: SuperviseAction)
    ensures
        a == supervise_decision(child_done, cancel_requested),
{
    if child_done {
        SuperviseAction::Collect
    } else if cancel_requested {
        SuperviseAction::Kill
    } else {
        SuperviseAction::Wait
    }
}

/// What one entry of the artifact directory looked like when read:
/// whether it was a directory, and its bytes if it was a readable
/// regular file.
pub struct ArtifactEntry {
    /// Whether the entry is a directory (directories are skipped).
    pub is_dir: bool,
    /// The entry's bytes; `None` when the entry could not be read.
    pub content: Option<Vec<u8>>,
}

/// Mathematical value of an [`ArtifactEntry`].
pub ghost struct ArtifactEntryV {
    pub is_dir: bool,
    pub content: Option<Seq<u8>>,
}

impl View for ArtifactEntry {
    type V = ArtifactEntryV;

    open spec fn view(&self) -> ArtifactEntryV {
        ArtifactEntryV {
            is_dir: self.is_dir,
            content: match &self.content {
                Some(c) => Some(c@),
                None => None,
            },
        }
    }
}

/// The artifacts collected from a directory listing: the bytes of
/// every readable regular file, in listing order. Directories and
/// unreadable entries are skipped, never an error.
pub open spec fn collected(entries: Seq<ArtifactEntryV>) -> Seq<Seq<u8>>
    decreases entries.len(),
{
    if entries.len() == 0 {
        Seq::empty()
    } else {
        let rest = collected(entries.drop_last());
        match entries.last().content {
            Some(c) => if entries.last().is_dir {
                rest
            } else {
                rest.push(c)
            },
            None => rest,
        }
    }
}

/// Collects artifacts from a directory listing, exactly as
/// [`collected`] says: readable regular files kept in order,
/// directories and unreadable entries skipped.
pub fn collect_artifacts(entries: Vec<ArtifactEntry>) -> (r: Vec<Vec<u8>>)
    ensures
        views_of(r@) == collected(views_of(entries@)),
{
    let mut r: Vec<Vec<u8>> = Vec::new();
    let mut i: usize = 0;
    while i < entries.len()
        invariant
            i <= entries@.len(),
            views_of(r@) =~= collected(views_of(entries@).subrange(0, i as int)),
        decreases entries@.len() - i,
    {
        proof {
            assert(views_of(entries@).subrange(0, i as int + 1).drop_last() =~= views_of(
                entries@,
            ).subrange(0, i as int));
        }
        if !entries[i].is_dir {
            match &entries[i].content {
                Some(c) => {
                    r.push(crate::clone_bytes(c));
                },
                None => {},
            }
        }
        i = i + 1;
        proof {
            assert(views_of(r@) =~= collected(views_of(entries@).subrange(0, i as int)));
        }
    }
    proof {
        assert(views_of(entries@).subrange(0, entries@.len() as int) =~= views_of(entries@));
    }
    r
}

/// Where the backend is within one run.
#[derive(Clone, Copy, PartialEq, Eq, Structural, Debug)]
pub enum BackendPhase {
    /// Nothing has happened yet; checkout is the first step.
    Idle,
    /// The source is checked out; the fuzz tool is to be launched.
    CheckedOut,
    /// The child process is alive and supervised by polling.
    Running,
    /// The child ended on its own; the artifact directory is to be
    /// read.
    Collecting,
    /// The outcome is decided; only the workspace removal is left.
    CleaningUp,
    /// The run is over and the workspace no longer exists.
    Done,
}

/// Whether the checkout workspace exists on disk.
#[derive(Clone, Copy, PartialEq, Eq, Structural, Debug)]
pub enum WorkspaceState {
    /// Never created.
    Absent,
    /// Created by the checkout and not yet removed.
    Present,
    /// Removed by the cleanup step.
    Removed,
}

/// What the outside world reports back after performing one action.
pub enum BackendEvent {
    /// The checkout finished, well or not.
    CheckedOut {
        /// Whether the source was materialized into the workspace.
        ok: bool,
    },
    /// The attempt to launch the fuzz tool finished.
    Launched {
        /// Whether the child process started.
        ok: bool,
    },
    /// One poll tick was taken.
    Polled {
        /// Whether the child had terminated on its own.
        child_done: bool,
        /// Whether the cancellation signal had arrived.
        cancel_requested: bool,
    },
    /// The artifact directory was read.
    Collected {
        /// Its entries, in listing order.
        entries: Vec<ArtifactEntry>,
    },
    /// The workspace was removed.
    CleanedUp,
}

/// Mathematical value of a [`BackendEvent`].
pub ghost enum BackendEventV {
    CheckedOut { ok: bool },
    Launched { ok: bool },
    Polled { child_done: bool, cancel_requested: bool },
    Collected { entries: Seq<ArtifactEntryV> },
    CleanedUp,
}

impl View for BackendEvent {
    type V = BackendEventV;

    open spec fn view(&self) -> BackendEventV {
        match self {
            BackendEvent::CheckedOut { ok } => BackendEventV::CheckedOut { ok: *ok },
            BackendEvent::Launched { ok } => BackendEventV::Launched { ok: *ok },
            BackendEvent::Polled { child_done, cancel_requested } => BackendEventV::Polled {
                child_done: *child_done,
                cancel_requested: *cancel_requested,
            },
            BackendEvent::Collected { entries } => BackendEventV::Collected {
                entries: views_of(entries@),
            },
            BackendEvent::CleanedUp => BackendEventV::CleanedUp,
        }
    }
}

/// What the outside world is asked to do next.
#[derive(Clone, Copy, PartialEq, Eq, Structural, Debug)]
pub enum BackendAction {
    /// Check the source out into the workspace.
    Checkout,
    /// Launch the fuzz tool in the working directory, output
    /// suppressed.
    Launch,
    /// Wait one poll interval, then observe the child and the
    /// cancellation signal.
    Poll,
    /// Kill the child (killing an already-exited child must not
    /// error) and then remove the workspace.
    KillAndClean,
    /// Read the artifact directory.
    Collect,
    /// Remove the workspace.
    Clean,
    /// Nothing is left to do; the outcome is available.
    Finish,
}

/// Mathematical value of a [`BackendRun`].
pub ghost struct BackendRunV {
    pub phase: BackendPhase,
    pub workspace: WorkspaceState,
    pub outcome: Option<ExecOutcomeV>,
}

impl BackendRunV {
    /// Well-formedness, and the cleanup guarantee with it: while the
    /// run is anywhere between checkout and cleanup the workspace
    /// exists, and when the run is done it does not — on success,
    /// cancellation and failure paths alike. The outcome is decided
    /// exactly from cleanup onwards.
    pub open spec fn wf(self) -> bool {
        &&& (self.phase == BackendPhase::Idle ==> self.workspace == WorkspaceState::Absent
            && self.outcome is None)
        &&& (self.phase == BackendPhase::CheckedOut ==> self.workspace == WorkspaceState::Present
            && self.outcome is None)
        &&& (self.phase == BackendPhase::Running ==> self.workspace == WorkspaceState::Present
            && self.outcome is None)
        &&& (self.phase == BackendPhase::Collecting ==> self.workspace == WorkspaceState::Present
            && self.outcome is None)
        &&& (self.phase == BackendPhase::CleaningUp ==> self.workspace == WorkspaceState::Present
            && self.outcome is Some)
        &&& (self.phase == BackendPhase::Done ==> self.workspace != WorkspaceState::Present
            && self.outcome is Some)
    }

    /// Which event the machine is waiting for in each phase.
    pub open spec fn accepts(self, e: BackendEventV) -> bool {
        match e {
            BackendEventV::CheckedOut { .. } => self.phase == BackendPhase::Idle,
            BackendEventV::Launched { .. } => self.phase == BackendPhase::CheckedOut,
            BackendEventV::Polled { .. } => self.phase == BackendPhase::Running,
            BackendEventV::Collected { .. } => self.phase == BackendPhase::Collecting,
            BackendEventV::CleanedUp => self.phase == BackendPhase::CleaningUp,
        }
    }

    /// The state after one event.
    pub open spec fn next(self, e: BackendEventV) -> BackendRunV {
        match e {
            BackendEventV::CheckedOut { ok } => if ok {
                BackendRunV {
                    phase: BackendPhase::CheckedOut,
                    workspace: WorkspaceState::Present,
                    outcome: None,
                }
            } else {
                BackendRunV {
                    phase: BackendPhase::Done,
                    workspace: WorkspaceState::Absent,
                    outcome: Some(ExecOutcomeV::CheckoutFailed),
                }
            },
            BackendEventV::Launched { ok } => if ok {
                BackendRunV { phase: BackendPhase::Running, ..self }
            } else {
                BackendRunV {
                    phase: BackendPhase::CleaningUp,
                    workspace: self.workspace,
                    outcome: Some(ExecOutcomeV::LaunchFailed),
                }
            },
            BackendEventV::Polled { child_done, cancel_requested } => {
                match supervise_decision(child_done, cancel_requested) {
                    SuperviseAction::Collect => BackendRunV {
                        phase: BackendPhase::Collecting,
                        ..self
                    },
                    SuperviseAction::Kill => BackendRunV {
                        phase: BackendPhase::CleaningUp,
                        workspace: self.workspace,
                        outcome: Some(ExecOutcomeV::Cancelled),
                    },
                    SuperviseAction::Wait => self,
                }
            },
            BackendEventV::Collected { entries } => BackendRunV {
                phase: BackendPhase::CleaningUp,
                workspace: self.workspace,
                outcome: Some(ExecOutcomeV::Artifacts(collected(entries))),
            },
            BackendEventV::CleanedUp => BackendRunV {
                phase: BackendPhase::Done,
                workspace: WorkspaceState::Removed,
                outcome: self.outcome,
            },
        }
    }

    /// The action asked of the outside world in each state.
    pub open spec fn action(self) -> BackendAction {
        match self.phase {
            BackendPhase::Idle => BackendAction::Checkout,
            BackendPhase::CheckedOut => BackendAction::Launch,
            BackendPhase::Running => BackendAction::Poll,
            BackendPhase::Collecting => BackendAction::Collect,
            BackendPhase::CleaningUp => if self.outcome == Some(ExecOutcomeV::Cancelled) {
                BackendAction::KillAndClean
            } else {
                BackendAction::Clean
            },
            BackendPhase::Done => BackendAction::Finish,
        }
    }
}

/// The state of one run of the execution backend. The caller drives
/// it: perform the action of [`BackendRun::action`], report what
/// happened through [`BackendRun::step`], repeat until the action is
/// to finish, then take the outcome.
pub struct BackendRun {
    phase: BackendPhase,
    workspace: WorkspaceState,
    outcome: Option<ExecOutcome>,
}

impl View for BackendRun {
    type V = BackendRunV;

    closed spec fn view(&self) -> BackendRunV {
        BackendRunV {
            phase: self.phase,
            workspace: self.workspace,
            outcome: match &self.outcome {
                Some(o) => Some(o@),
                None => None,
            },
        }
    }
}

impl BackendRun {
    /// A run that has not started: no workspace, checkout first.
    pub fn new() -> (r: BackendRun)
        ensures
            r@.wf(),
            r@.phase == BackendPhase::Idle,
            r@ == (BackendRunV {
                phase: BackendPhase::Idle,
                workspace: WorkspaceState::Absent,
                outcome: None,
            }),
    {
        BackendRun { phase: BackendPhase::Idle, workspace: WorkspaceState::Absent, outcome: None }
    }

    /// The action the outside world should perform next.
    pub fn action(&self) -> (a: BackendAction)
        ensures
            a == self@.action(),
    {
        match self.phase {
            BackendPhase::Idle => BackendAction::Checkout,
            BackendPhase::CheckedOut => BackendAction::Launch,
            BackendPhase::Running => BackendAction::Poll,
            BackendPhase::Collecting => BackendAction::Collect,
            BackendPhase::CleaningUp => {
                match &self.outcome {
                    Some(ExecOutcome::Cancelled) => BackendAction::KillAndClean,
                    _ => BackendAction::Clean,
                }
            },
            BackendPhase::Done => BackendAction::Finish,
        }
    }

    /// Takes one report from the outside world and moves the run on,
    /// exactly as [`BackendRunV::next`] says; returns the next action.
    pub fn step(&mut self, e: BackendEvent) -> (a: BackendAction)
        requires
            old(self)@.wf(),
            old(self)@.accepts(e@),
        ensures
            final(self)@.wf(),
            final(self)@ == old(self)@.next(e@),
            a == final(self)@.action(),
    {
        match e {
            BackendEvent::CheckedOut { ok } => {
                if ok {
                    self.phase = BackendPhase::CheckedOut;
                    self.workspace = WorkspaceState::Present;
                } else {
                    self.phase = BackendPhase::Done;
                    self.outcome = Some(ExecOutcome::CheckoutFailed);
                }
            },
            BackendEvent::Launched { ok } => {
                if ok {
                    self.phase = BackendPhase::Running;
                } else {
                    self.phase = BackendPhase::CleaningUp;
                    self.outcome = Some(ExecOutcome::LaunchFailed);
                }
            },
            BackendEvent::Polled { child_done, cancel_requested } => {
                match supervise_step(child_done, cancel_requested) {
                    SuperviseAction::Collect => {
                        self.phase = BackendPhase::Collecting;
                    },
                    SuperviseAction::Kill => {
                        self.phase = BackendPhase::CleaningUp;
                        self.outcome = Some(ExecOutcome::Cancelled);
                    },
                    SuperviseAction::Wait => {},
                }
            },
            BackendEvent::Collected { entries } => {
                self.phase = BackendPhase::CleaningUp;
                self.outcome = Some(ExecOutcome::Artifacts(collect_artifacts(entries)));
            },
            BackendEvent::CleanedUp => {
                self.phase = BackendPhase::Done;
                self.workspace = WorkspaceState::Removed;
            },
        }
        self.action()
    }

    /// Hands the outcome out once the run is done. The well-formedness
    /// of a done run carries the cleanup guarantee: the workspace no
    /// longer exists.
    pub fn outcome(self) -> (r: ExecOutcome)
        requires
            self@.wf(),
            self@.phase == BackendPhase::Done,
        ensures
            Some(r@) == self@.outcome,
    {
        match self.outcome {
            Some(o) => o,
            None => {
                proof {
                    assert(false);
                }
                ExecOutcome::Cancelled
            },
        }
    }
}

/// Law: cancelling a run before its child exits yields no artifacts,
/// and the workspace no longer exists afterwards. From a running
/// state, a poll tick that sees the cancellation signal (and a child
/// still alive) asks for the kill, decides the outcome as cancelled —
/// which carries no artifacts — and the cleanup that follows ends the
/// run with the workspace removed.
pub proof fn lemma_cancelled_run_clean(s: BackendRunV, s1: BackendRunV, s2: BackendRunV)
    requires
        s.wf(),
        s.phase == BackendPhase::Running,
        s1 == s.next(
            BackendEventV::Polled { child_done: false, cancel_requested: true },
        ),
        s2 == s1.next(BackendEventV::CleanedUp),
    ensures
        s1.action() == BackendAction::KillAndClean,
        s2.phase == BackendPhase::Done,
        s2.workspace == WorkspaceState::Removed,
        s2.outcome == Some(ExecOutcomeV::Cancelled),
        s2.outcome.unwrap().artifacts() == Seq::<Seq<u8>>::empty(),
{
}

/// Law: a done run never leaves its workspace behind, whichever exit
/// path it took.
pub proof fn lemma_done_is_clean(s: BackendRunV)
    requires
        s.wf(),
        s.phase == BackendPhase::Done,
    ensures
        s.workspace != WorkspaceState::Present,
{
}

} // verus!
