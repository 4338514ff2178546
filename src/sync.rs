use vstd::prelude::*;
use crate::registry::Language;
use crate::revision::{is_revision_id, parse_revision, revision_bytes};

verus! {

/// The name of the version-control directory inside a working copy.
pub const METADATA_DIR: &'static str = "/.git";

/// What the caller saw when it performed the last requested action.
pub enum StepReport {
    /// The action completed.
    Done,
    /// The target of a removal did not exist; the text says why.
    Missing(String),
    /// The action failed; the text says why.
    Failed(String),
}

/// Why an entry's synchronization stopped.
pub enum SyncFailure {
    /// The old working copy could not be removed.
    Clear(String),
    /// The repository could not be cloned.
    Clone(String),
    /// The pinned revision is not a commit identifier.
    UnresolvedRevision(String),
    /// The head could not be moved to the pinned revision.
    Pin(String),
    /// The version-control metadata could not be removed.
    Strip(String),
}

pub enum SyncStatus {
    Success,
    Failed(SyncFailure),
}

impl SyncStatus {
    pub fn is_success(&self) -> (r: bool)
        ensures
            r == (*self is Success),
    {
        match self {
            SyncStatus::Success => true,
            SyncStatus::Failed(_) => false,
        }
    }
}

/// The result of synchronizing one entry.
pub struct SyncOutcome {
    pub name: String,
    pub directory: String,
    pub status: SyncStatus,
}

/// The next thing the caller must do for an entry.
pub enum SyncAction {
    /// Recursively delete this directory; report `Missing` when it is absent.
    RemoveDirectory(String),
    /// Clone the repository at `url` into `directory`.
    Clone { url: String, directory: String },
    /// Detach the head of the clone in `directory` at the object with these bytes.
    DetachHead { directory: String, revision: Vec<u8> },
    /// Recursively delete the version-control metadata directory at this path.
    RemoveMetadata(String),
    /// The synchronization is over.
    Report(SyncOutcome),
}

#[derive(PartialEq, Eq, Structural)]
pub enum SyncPhase {
    Clearing,
    Cloning,
    Pinning,
    Stripping,
    Finished,
}

/// Drives one entry through clear, clone, pin and strip.
pub struct Synchronizer {
    pub language: Language,
    pub directory: String,
    pub phase: SyncPhase,
}

/// The cause carried by a report that is not `Done`.
pub open spec fn cause(r: StepReport) -> String {
    match r {
        StepReport::Missing(c) => c,
        StepReport::Failed(c) => c,
        StepReport::Done => arbitrary(),
    }
}

/// `a` ends the synchronization of `s` with `failure`.
pub open spec fn fails_with(s: Synchronizer, a: SyncAction, failure: SyncFailure) -> bool {
    a == SyncAction::Report(SyncOutcome {
        name: s.language.name,
        directory: s.directory,
        status: SyncStatus::Failed(failure),
    })
}

/// The action that strips the metadata of the working copy of `s`.
pub open spec fn strips(s: Synchronizer, a: SyncAction) -> bool {
    a matches SyncAction::RemoveMetadata(p) && p@ == s.directory@ + METADATA_DIR@
}

/// One transition: from state `s` the caller reported `r`; the machine moves to
/// phase `phase` and asks for `a`.
pub open spec fn transition(s: Synchronizer, r: StepReport, phase: SyncPhase, a: SyncAction) -> bool {
    match s.phase {
        SyncPhase::Clearing => if r is Failed {
            phase == SyncPhase::Finished && fails_with(s, a, SyncFailure::Clear(cause(r)))
        } else {
            phase == SyncPhase::Cloning && a == (SyncAction::Clone { url: s.language.git, directory: s.directory })
        },
        SyncPhase::Cloning => if !(r is Done) {
            phase == SyncPhase::Finished && fails_with(s, a, SyncFailure::Clone(cause(r)))
        } else {
            match s.language.hash {
                None => phase == SyncPhase::Stripping && strips(s, a),
                Some(h) => if is_revision_id(h@) {
                    phase == SyncPhase::Pinning && (a matches SyncAction::DetachHead { directory, revision }
                        && directory == s.directory && revision@ == revision_bytes(h@))
                } else {
                    phase == SyncPhase::Finished && fails_with(s, a, SyncFailure::UnresolvedRevision(h))
                },
            }
        },
        SyncPhase::Pinning => if !(r is Done) {
            phase == SyncPhase::Finished && fails_with(s, a, SyncFailure::Pin(cause(r)))
        } else {
            phase == SyncPhase::Stripping && strips(s, a)
        },
        SyncPhase::Stripping => if !(r is Done) {
            phase == SyncPhase::Finished && fails_with(s, a, SyncFailure::Strip(cause(r)))
        } else {
            phase == SyncPhase::Finished && a == SyncAction::Report(SyncOutcome {
                name: s.language.name,
                directory: s.directory,
                status: SyncStatus::Success,
            })
        },
        SyncPhase::Finished => false,
    }
}

impl Synchronizer {
    /// Starts synchronizing `language` into `directory`; the first action
    /// clears the directory.
    pub fn new(language: Language, directory: String) -> (r: (Synchronizer, SyncAction))
        ensures
            r.0.language == language,
            r.0.directory == directory,
            r.0.phase == SyncPhase::Clearing,
            r.1 == SyncAction::RemoveDirectory(directory),
    {
        let d = directory.clone();
        (Synchronizer { language, directory, phase: SyncPhase::Clearing }, SyncAction::RemoveDirectory(d))
    }

    pub fn is_finished(&self) -> (r: bool)
        ensures
            r == (self.phase == SyncPhase::Finished),
    {
        self.phase == SyncPhase::Finished
    }

    fn finish(&mut self, failure: SyncFailure) -> (a: SyncAction)
        ensures
            final(self).language == old(self).language,
            final(self).directory == old(self).directory,
            final(self).phase == SyncPhase::Finished,
            fails_with(*old(self), a, failure),
    {
        self.phase = SyncPhase::Finished;
        SyncAction::Report(SyncOutcome {
            name: self.language.name.clone(),
            directory: self.directory.clone(),
            status: SyncStatus::Failed(failure),
        })
    }

    fn strip(&mut self) -> (a: SyncAction)
        ensures
            final(self).language == old(self).language,
            final(self).directory == old(self).directory,
            final(self).phase == SyncPhase::Stripping,
            strips(*old(self), a),
    {
        self.phase = SyncPhase::Stripping;
        let path = self.directory.clone().concat(METADATA_DIR);
        SyncAction::RemoveMetadata(path)
    }

    /// Takes the caller's report on the last action and returns the next one.
    /// A working copy is reported a success only once its metadata directory
    /// was removed, and its head is only ever detached at the pinned revision.
    pub fn step(&mut self, report: StepReport) -> (a: SyncAction)
        requires
            old(self).phase != SyncPhase::Finished,
        ensures
            final(self).language == old(self).language,
            final(self).directory == old(self).directory,
            transition(*old(self), report, final(self).phase, a),
            (a matches SyncAction::Report(o) && o.status is Success) <==> (old(self).phase
                == SyncPhase::Stripping && report is Done),
            a matches SyncAction::DetachHead { revision, .. } ==> (old(self).language.hash matches Some(h)
                && is_revision_id(h@) && revision@ == revision_bytes(h@)),
    {
        match self.phase {
            SyncPhase::Clearing => match report {
                StepReport::Failed(c) => self.finish(SyncFailure::Clear(c)),
                _ => {
                    self.phase = SyncPhase::Cloning;
                    SyncAction::Clone { url: self.language.git.clone(), directory: self.directory.clone() }
                },
            },
            SyncPhase::Cloning => match report {
                StepReport::Done => {
                    let rev = match &self.language.hash {
                        None => None,
                        Some(h) => Some((h.clone(), parse_revision(h.as_str()))),
                    };
                    match rev {
                        None => self.strip(),
                        Some((_h, Some(bytes))) => {
                            self.phase = SyncPhase::Pinning;
                            SyncAction::DetachHead { directory: self.directory.clone(), revision: bytes }
                        },
                        Some((h, None)) => self.finish(SyncFailure::UnresolvedRevision(h)),
                    }
                },
                StepReport::Missing(c) => self.finish(SyncFailure::Clone(c)),
                StepReport::Failed(c) => self.finish(SyncFailure::Clone(c)),
            },
            SyncPhase::Pinning => match report {
                StepReport::Done => self.strip(),
                StepReport::Missing(c) => self.finish(SyncFailure::Pin(c)),
                StepReport::Failed(c) => self.finish(SyncFailure::Pin(c)),
            },
            SyncPhase::Stripping => match report {
                StepReport::Done => {
                    self.phase = SyncPhase::Finished;
                    SyncAction::Report(SyncOutcome {
                        name: self.language.name.clone(),
                        directory: self.directory.clone(),
                        status: SyncStatus::Success,
                    })
                },
                StepReport::Missing(c) => self.finish(SyncFailure::Strip(c)),
                StepReport::Failed(c) => self.finish(SyncFailure::Strip(c)),
            },
            SyncPhase::Finished => {
                proof {
                    assert(false);
                }
                self.finish(SyncFailure::Strip(String::new()))
            },
        }
    }
}

/// `states`, `reports` and `actions` record a run from a fresh synchronizer:
/// from `states[k]` the caller reported `reports[k]`, and the machine moved to
/// `states[k + 1]` and asked for `actions[k]`.
pub open spec fn is_run(states: Seq<Synchronizer>, reports: Seq<StepReport>, actions: Seq<SyncAction>) -> bool {
    &&& states.len() == reports.len() + 1
    &&& actions.len() == reports.len()
    &&& states[0].phase == SyncPhase::Clearing
    &&& forall|k: int| 0 <= k < states.len() ==> (#[trigger] states[k]).language == states[0].language
        && states[k].directory == states[0].directory
    &&& forall|k: int| 0 <= k < reports.len() ==> transition(#[trigger] states[k], reports[k], states[k + 1].phase, actions[k])
}

proof fn lemma_into_stripping(s: Synchronizer, r: StepReport, a: SyncAction)
    requires
        transition(s, r, SyncPhase::Stripping, a),
    ensures
        r is Done,
        strips(s, a),
        s.phase == SyncPhase::Pinning || (s.phase == SyncPhase::Cloning && s.language.hash is None),
{
}

proof fn lemma_into_pinning(s: Synchronizer, r: StepReport, a: SyncAction)
    requires
        transition(s, r, SyncPhase::Pinning, a),
    ensures
        r is Done,
        s.phase == SyncPhase::Cloning,
        s.language.hash matches Some(h) && is_revision_id(h@) && (a matches SyncAction::DetachHead {
            directory,
            revision,
        } && directory == s.directory && revision@ == revision_bytes(h@)),
{
}

proof fn lemma_reports_success(s: Synchronizer, r: StepReport, p: SyncPhase, a: SyncAction)
    requires
        transition(s, r, p, a),
        a matches SyncAction::Report(o) && o.status is Success,
    ensures
        r is Done,
        s.phase == SyncPhase::Stripping,
{
}

/// A run that reports success removed the metadata directory of the working
/// copy, and, for a pinned entry, detached the head at the pinned commit
/// first; the caller reported both done.
pub proof fn lemma_success_is_pinned_and_stripped(
    states: Seq<Synchronizer>,
    reports: Seq<StepReport>,
    actions: Seq<SyncAction>,
)
    requires
        is_run(states, reports, actions),
        reports.len() > 0,
        actions.last() matches SyncAction::Report(o) && o.status is Success,
    ensures
        reports.len() >= 3,
        strips(states[0], actions[reports.len() - 2]),
        reports.last() is Done,
        states[0].language.hash matches Some(h) ==> {
            &&& is_revision_id(h@)
            &&& reports.len() >= 4
            &&& actions[reports.len() - 3] matches SyncAction::DetachHead { directory, revision }
            &&& directory == states[0].directory
            &&& revision@ == revision_bytes(h@)
            &&& reports[reports.len() - 2] is Done
        },
{
    let n = reports.len() as int;
    let s0 = states[0];
    let last = states[n - 1];
    assert(transition(last, reports[n - 1], states[n].phase, actions[n - 1]));
    lemma_reports_success(last, reports[n - 1], states[n].phase, actions[n - 1]);
    assert(n - 1 > 0);
    let prev = states[n - 2];
    assert(transition(prev, reports[n - 2], states[n - 1].phase, actions[n - 2]));
    lemma_into_stripping(prev, reports[n - 2], actions[n - 2]);
    assert(prev.language == s0.language && prev.directory == s0.directory);
    assert(n - 2 > 0);
    if prev.phase == SyncPhase::Pinning {
        let pin = states[n - 3];
        assert(transition(pin, reports[n - 3], states[n - 2].phase, actions[n - 3]));
        lemma_into_pinning(pin, reports[n - 3], actions[n - 3]);
        assert(pin.language == s0.language && pin.directory == s0.directory);
        assert(n - 3 > 0);
    }
}
} // verus!
