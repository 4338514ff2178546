use vstd::prelude::*;
use crate::builder::{wasm_target, WASM_DIR, WASM_EXTENSION};
use crate::registry::{has_key, key_at, Language, Registry};
use crate::sync::SyncOutcome;

verus! {

/// One entry of a run: its registry key, its language, the working copy it
/// is synchronized into, and the name its built artifact is given.
pub struct SyncJob {
    pub key: String,
    pub language: Language,
    pub directory: String,
    pub artifact: String,
}

pub enum SelectError {
    /// No entry is registered under this key.
    NotFound(String),
    /// Neither a key nor the whole registry was asked for.
    NoSelection,
}

/// The working copy of grammar `name` under the repositories root `root`.
pub fn destination_directory(root: &str, name: &str) -> (r: String)
    ensures
        r@ == root@ + name@,
{
    String::from_str(root).concat(name)
}

/// `j` is the job for `lang`, stored under `key`, below `root`.
pub open spec fn job_for(root: Seq<char>, key: String, lang: Language, j: SyncJob) -> bool {
    &&& j.key == key
    &&& j.language == lang
    &&& j.directory@ == root + lang.name@
}

/// The job for `lang` under `key`, its artifact named `artifact`.
fn make_job(root: &str, key: &String, lang: &Language, artifact: &String) -> (r: SyncJob)
    ensures
        job_for(root@, *key, *lang, r),
        r.artifact == *artifact,
{
    SyncJob {
        key: key.clone(),
        language: lang.clone(),
        directory: destination_directory(root, lang.name.as_str()),
        artifact: artifact.clone(),
    }
}

/// The jobs of a run: the entry under `name` when one is given, its artifact
/// named after that key; else every entry when `all` is set, in registry
/// order, each artifact named after the language's name.
pub fn select_jobs(registry: &Registry, name: Option<String>, all: bool, root: &str) -> (r: Result<
    Vec<SyncJob>,
    SelectError,
>)
    requires
        registry.wf(),
    ensures
        match name {
            Some(n) => if has_key(registry.entries@, n@) {
                r matches Ok(v) && v@.len() == 1 && exists|i: int|
                    key_at(registry.entries@, i, n@) && job_for(
                        root@,
                        registry.entries@[i].0,
                        registry.entries@[i].1,
                        #[trigger] v@[0],
                    ) && v@[0].artifact == registry.entries@[i].0
            } else {
                r == Err::<Vec<SyncJob>, SelectError>(SelectError::NotFound(n))
            },
            None => if all {
                r matches Ok(v) && v@.len() == registry.entries@.len() && forall|i: int|
                    0 <= i < v@.len() ==> job_for(
                        root@,
                        registry.entries@[i].0,
                        registry.entries@[i].1,
                        #[trigger] v@[i],
                    ) && v@[i].artifact == registry.entries@[i].1.name
            } else {
                r == Err::<Vec<SyncJob>, SelectError>(SelectError::NoSelection)
            },
        },
{
    match name {
        Some(n) => match registry.position(&n) {
            Some(i) => {
                let mut v: Vec<SyncJob> = Vec::new();
                v.push(make_job(root, &registry.entries[i].0, &registry.entries[i].1, &registry.entries[i].0));
                Ok(v)
            },
            None => Err(SelectError::NotFound(n)),
        },
        None => if all {
            let mut v: Vec<SyncJob> = Vec::new();
            let mut i: usize = 0;
            while i < registry.entries.len()
                invariant
                    i <= registry.entries@.len(),
                    v@.len() == i,
                    forall|j: int|
                        0 <= j < i ==> job_for(
                            root@,
                            registry.entries@[j].0,
                            registry.entries@[j].1,
                            #[trigger] v@[j],
                        ) && v@[j].artifact == registry.entries@[j].1.name,
                decreases registry.entries@.len() - i,
            {
                v.push(
                    make_job(root, &registry.entries[i].0, &registry.entries[i].1, &registry.entries[i].1.name),
                );
                i = i + 1;
            }
            Ok(v)
        } else {
            Err(SelectError::NoSelection)
        },
    }
}

/// A build to run: the job at `index`, built in `directory` to `target`.
pub struct BuildJob {
    pub index: usize,
    pub directory: String,
    pub target: String,
}

/// The jobs of a run and the synchronization outcome of each, once known.
pub struct Batch {
    pub jobs: Vec<SyncJob>,
    pub outcomes: Vec<Option<SyncOutcome>>,
}

/// Outcome slot `i` was filled with `o`, and nothing else changed.
pub open spec fn recorded(old: Batch, i: int, o: SyncOutcome, new: Batch) -> bool {
    &&& new.jobs == old.jobs
    &&& new.outcomes@ == old.outcomes@.update(i, Some(o))
}

impl Batch {
    pub open spec fn wf(&self) -> bool {
        self.outcomes@.len() == self.jobs@.len()
    }

    /// Every job has its outcome.
    pub open spec fn complete(&self) -> bool {
        forall|i: int| 0 <= i < self.outcomes@.len() ==> #[trigger] self.outcomes@[i] is Some
    }

    /// Job `i` is to be built: building is on and it was synchronized.
    pub open spec fn should_build(&self, wasm: bool, i: int) -> bool {
        wasm && (self.outcomes@[i] matches Some(o) && o.status is Success)
    }

    /// `b` is the build of job `b.index`.
    pub open spec fn build_for(&self, b: BuildJob) -> bool {
        &&& b.index < self.jobs@.len()
        &&& b.directory == self.jobs@[b.index as int].directory
        &&& b.target@ == WASM_DIR@ + self.jobs@[b.index as int].artifact@ + WASM_EXTENSION@
    }

    /// A batch of `jobs`, none of them synchronized yet.
    pub fn new(jobs: Vec<SyncJob>) -> (r: Batch)
        ensures
            r.wf(),
            r.jobs == jobs,
            forall|i: int| 0 <= i < r.outcomes@.len() ==> #[trigger] r.outcomes@[i] is None,
    {
        let mut outcomes: Vec<Option<SyncOutcome>> = Vec::new();
        let mut i: usize = 0;
        while i < jobs.len()
            invariant
                i <= jobs@.len(),
                outcomes@.len() == i,
                forall|j: int| 0 <= j < i ==> #[trigger] outcomes@[j] is None,
            decreases jobs@.len() - i,
        {
            outcomes.push(None);
            i = i + 1;
        }
        Batch { jobs, outcomes }
    }

    /// Records the synchronization outcome of job `i`, which names that job's
    /// language; the other jobs' outcomes are untouched.
    pub fn record(&mut self, i: usize, outcome: SyncOutcome)
        requires
            old(self).wf(),
            i < old(self).jobs@.len(),
            outcome.name == old(self).jobs@[i as int].language.name,
        ensures
            final(self).wf(),
            recorded(*old(self), i as int, outcome, *final(self)),
    {
        self.outcomes.set(i, Some(outcome));
    }

    pub fn is_complete(&self) -> (r: bool)
        ensures
            r == self.complete(),
    {
        let mut i: usize = 0;
        while i < self.outcomes.len()
            invariant
                i <= self.outcomes@.len(),
                forall|j: int| 0 <= j < i ==> #[trigger] self.outcomes@[j] is Some,
            decreases self.outcomes@.len() - i,
        {
            if self.outcomes[i].is_none() {
                return false;
            }
            i = i + 1;
        }
        true
    }

    /// The builds of a run, in job order: one for each job that was
    /// synchronized successfully when building is on, and none otherwise.
    /// A job whose outcome is not recorded is not built.
    pub fn build_jobs(&self, wasm: bool) -> (r: Vec<BuildJob>)
        requires
            self.wf(),
        ensures
            forall|k: int| 0 <= k < r@.len() ==> self.build_for(#[trigger] r@[k]),
            forall|k: int| 0 <= k < r@.len() ==> self.should_build(wasm, #[trigger] r@[k].index as int),
            forall|k: int, l: int| 0 <= k < l < r@.len() ==> #[trigger] r@[k].index < #[trigger] r@[l].index,
            forall|i: int|
                0 <= i < self.jobs@.len() && self.should_build(wasm, i) ==> exists|k: int|
                    0 <= k < r@.len() && #[trigger] r@[k].index == i,
    {
        let mut r: Vec<BuildJob> = Vec::new();
        if !wasm {
            return r;
        }
        let mut i: usize = 0;
        while i < self.jobs.len()
            invariant
                wasm,
                self.wf(),
                i <= self.jobs@.len(),
                forall|k: int| 0 <= k < r@.len() ==> self.build_for(#[trigger] r@[k]),
                forall|k: int| 0 <= k < r@.len() ==> #[trigger] r@[k].index < i,
                forall|k: int| 0 <= k < r@.len() ==> self.should_build(wasm, #[trigger] r@[k].index as int),
                forall|k: int, l: int| 0 <= k < l < r@.len() ==> #[trigger] r@[k].index < #[trigger] r@[l].index,
                forall|j: int|
                    0 <= j < i && self.should_build(wasm, j) ==> exists|k: int|
                        0 <= k < r@.len() && #[trigger] r@[k].index == j,
            decreases self.jobs@.len() - i,
        {
            let built = match &self.outcomes[i] {
                Some(o) => o.status.is_success(),
                None => false,
            };
            if built {
                let job = &self.jobs[i];
                let b = BuildJob {
                    index: i,
                    directory: job.directory.clone(),
                    target: wasm_target(job.artifact.as_str()),
                };
                let ghost r0 = r@;
                r.push(b);
                proof {
                    assert(r@[r0.len() as int] == b);
                    assert forall|j: int|
                        0 <= j < i + 1 && self.should_build(wasm, j) implies exists|k: int|
                            0 <= k < r@.len() && #[trigger] r@[k].index == j by {
                        if j < i {
                            let k = choose|k: int| 0 <= k < r0.len() && #[trigger] r0[k].index == j;
                            assert(r@[k] == r0[k]);
                        } else {
                            assert(r@[r0.len() as int].index == j);
                        }
                    }
                }
            }
            i = i + 1;
        }
        r
    }
}

/// Recording the outcomes of two jobs, in either order, leaves each job with
/// its own outcome: a job's outcome never replaces or removes another's.
pub proof fn lemma_outcomes_isolated(
    b0: Batch,
    i: int,
    oi: SyncOutcome,
    j: int,
    oj: SyncOutcome,
    b1: Batch,
    b2: Batch,
)
    requires
        b0.wf(),
        0 <= i < b0.jobs@.len(),
        0 <= j < b0.jobs@.len(),
        i != j,
        recorded(b0, i, oi, b1),
        recorded(b1, j, oj, b2),
    ensures
        b2.wf(),
        b2.outcomes@[i] == Some(oi),
        b2.outcomes@[j] == Some(oj),
        forall|k: int| 0 <= k < b0.jobs@.len() && k != i && k != j ==> #[trigger] b2.outcomes@[k] == b0.outcomes@[k],
{
}

} // verus!
