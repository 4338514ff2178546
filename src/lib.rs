//! Fetching and updating tree-sitter grammar repositories listed in a registry.
//!
//! The verified library decides: it keeps the registry, selects the entries of
//! a run, drives each entry's synchronization as a state machine, gates the
//! build step on a successful synchronization, and maps exit statuses to
//! outcomes. The side effects (files, clones, subprocesses) are performed by
//! the caller, which reports back what happened.

mod keys;
mod registry;
mod revision;
mod sync;
mod builder;
mod batch;

pub use registry::{
    add_language_grammar_to_toml, lemma_upsert_idempotent, registry_document, Language, Registry,
    REGISTRY_HEADER,
};
pub use revision::parse_revision;
pub use sync::{
    lemma_success_is_pinned_and_stripped, StepReport, SyncAction, SyncFailure, SyncOutcome, SyncPhase,
    SyncStatus, Synchronizer, METADATA_DIR,
};
pub use builder::{
    build_outcome, wasm_target, BuildFailure, BuildOutcome, BuildReport, BuildStatus, WASM_DIR, WASM_EXTENSION,
};
pub use batch::{
    destination_directory, lemma_outcomes_isolated, select_jobs, Batch, BuildJob, SelectError, SyncJob,
};
pub use keys::compare_keys;
