//! What devtree learns from the machine it runs on: the user's state
//! directory; and the instants it records.

use vstd::prelude::*;
use crate::error::DevtreeError;

verus! {

/// Declares `directories::ProjectDirs`, the user's per-project directories,
/// as an opaque type.
#[verifier::external_type_specification]
#[verifier::external_body]
pub struct ExProjectDirs(directories::ProjectDirs);

/// The qualifier of devtree's project directories.
pub open spec fn project_qualifier() -> Seq<char> {
    "com"@
}

/// The organization of devtree's project directories.
pub open spec fn project_organization() -> Seq<char> {
    "hanifcarroll"@
}

/// The application name of devtree's project directories.
pub open spec fn project_application() -> Seq<char> {
    "devtree"@
}

/// `directories::ProjectDirs::from`, for devtree's own project identity only
/// (`com`, `hanifcarroll`, `devtree`). The result depends on the environment
/// (`HOME`, `XDG_*` variables), so nothing is stated of it.
#[verifier::external_body]
fn project_dirs_from(qualifier: &str, organization: &str, application: &str) -> Option<
    directories::ProjectDirs,
>
    requires
        qualifier@ == project_qualifier(),
        organization@ == project_organization(),
        application@ == project_application(),
{
    directories::ProjectDirs::from(qualifier, organization, application)
}

/// Declares `std::path::PathBuf`, a path as the platform holds it, as an
/// opaque type.
#[verifier::external_type_specification]
#[verifier::external_body]
pub struct ExPathBuf(std::path::PathBuf);

/// `directories::ProjectDirs::state_dir`, as an owned path. It hands back a
/// path fixed when the `ProjectDirs` was made; nothing is stated of it.
#[verifier::external_body]
fn project_state_dir(dirs: &directories::ProjectDirs) -> Option<std::path::PathBuf> {
    dirs.state_dir().map(std::path::Path::to_path_buf)
}

/// `directories::ProjectDirs::data_local_dir`, as an owned path. It hands back
/// a path fixed when the `ProjectDirs` was made; nothing is stated of it.
#[verifier::external_body]
fn project_data_local_dir(dirs: &directories::ProjectDirs) -> std::path::PathBuf {
    dirs.data_local_dir().to_path_buf()
}

/// `std::path::Path::to_str`, as an owned string: the path's text when it is
/// valid Unicode, else `None`. The path is opaque here, so nothing is stated
/// of which comes back.
#[verifier::external_body]
fn path_text(p: &std::path::PathBuf) -> Option<String> {
    p.to_str().map(str::to_owned)
}

/// The state directory when the platform has one, else the local data directory.
pub fn choose_state_dir<P>(state: Option<P>, data_local: P) -> (r: P)
    ensures
        r == (match state {
            Some(s) => s,
            None => data_local,
        }),
{
    match state {
        Some(s) => s,
        None => data_local,
    }
}

/// The text of a resolved state directory: the directory itself when its path
/// is valid Unicode (`Some`), else the error that says it is not.
pub fn state_dir_text(text: Option<String>) -> (r: Result<String, DevtreeError>)
    ensures
        r == (match text {
            Some(s) => Ok::<String, DevtreeError>(s),
            None => Err(DevtreeError::StateDirNotUnicode),
        }),
{
    match text {
        Some(s) => Ok(s),
        None => Err(DevtreeError::StateDirNotUnicode),
    }
}

/// The errors that resolving the state directory can give.
pub open spec fn state_dir_error(e: DevtreeError) -> bool {
    e == DevtreeError::NoStateDir || e == DevtreeError::StateDirNotUnicode
}

/// The directory where devtree keeps its state file and logs: the platform
/// state directory of the project `com`/`hanifcarroll`/`devtree`, or its
/// local data directory where the platform has no state directory. Devtree
/// holds paths as text, so a directory whose path is not valid Unicode is
/// refused rather than altered.
pub fn state_dir() -> (r: Result<String, DevtreeError>)
    ensures
        r matches Err(e) ==> state_dir_error(e),
{
    match project_dirs_from("com", "hanifcarroll", "devtree") {
        None => Err(DevtreeError::NoStateDir),
        Some(dirs) => {
            let dir = choose_state_dir(project_state_dir(&dirs), project_data_local_dir(&dirs));
            state_dir_text(path_text(&dir))
        },
    }
}

/// A UTC instant: whole seconds since the Unix epoch and the nanoseconds past them.
#[derive(Debug, Clone, Copy, PartialEq, Eq)]
pub struct Timestamp {
    pub secs: i64,
    pub nanos: u32,
}

} // verus!
