//! Where files go.

use crate::context::InstallMode;
use vstd::prelude::*;

verus! {

/// The directories of one install root.
#[derive(Debug)]
pub struct FsLayout {
    /// Whose root it is.
    pub mode: InstallMode,
    /// Root that the others are under.
    pub prefix: String,
    /// Executables.
    pub bin_dir: String,
    /// Libraries.
    pub lib_dir: String,
    /// Executables for internal use.
    pub libexec_dir: String,
    /// Packaged data.
    pub datadir: String,
    /// Configuration.
    pub etc_dir: String,
    /// State.
    pub state_dir: String,
    /// Logs.
    pub log_dir: String,
    /// Caches.
    pub cache_dir: String,
    /// Lock of the install root.
    pub lock_file: String,
    /// Log of all operations.
    pub central_log: String,
}

} // verus!
