use vstd::prelude::*;

verus! {

/// Where built WebAssembly files go, relative to a working copy.
pub const WASM_DIR: &'static str = "../../wasm/";

pub const WASM_EXTENSION: &'static str = ".wasm";

/// The output path of the WebAssembly build of grammar `name`.
pub fn wasm_target(name: &str) -> (r: String)
    ensures
        r@ == WASM_DIR@ + name@ + WASM_EXTENSION@,
{
    String::from_str(WASM_DIR).concat(name).concat(WASM_EXTENSION)
}

/// How the build command ended, as the caller observed it.
pub enum BuildReport {
    /// The process ran and exited with this code (`None` when a signal ended it).
    Exited(Option<i32>),
    /// The process could not be started.
    LaunchFailed(String),
}

pub enum BuildFailure {
    /// The process exited with a status other than zero.
    ExitStatus(Option<i32>),
    /// The process could not be started.
    Launch(String),
}

pub enum BuildStatus {
    Success,
    Failed(BuildFailure),
}

/// The result of building one entry.
pub struct BuildOutcome {
    pub name: String,
    pub status: BuildStatus,
}

/// The outcome of building `name`: a success exactly when the process exited
/// with status zero.
pub fn build_outcome(name: String, report: BuildReport) -> (r: BuildOutcome)
    ensures
        r.name == name,
        r.status is Success <==> report == BuildReport::Exited(Some(0i32)),
        match report {
            BuildReport::Exited(code) => code != Some(0i32) ==> r.status == BuildStatus::Failed(
                BuildFailure::ExitStatus(code),
            ),
            BuildReport::LaunchFailed(e) => r.status == BuildStatus::Failed(BuildFailure::Launch(e)),
        },
{
    let status = match report {
        BuildReport::Exited(Some(code)) => if code == 0 {
            BuildStatus::Success
        } else {
            BuildStatus::Failed(BuildFailure::ExitStatus(Some(code)))
        },
        BuildReport::Exited(None) => BuildStatus::Failed(BuildFailure::ExitStatus(None)),
        BuildReport::LaunchFailed(e) => BuildStatus::Failed(BuildFailure::Launch(e)),
    };
    BuildOutcome { name, status }
}

} // verus!
