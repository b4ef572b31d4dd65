//! The values a caller hands to the composition, and the errors it reports.

use vstd::prelude::*;

verus! {

/// A command of the host made available to the guest under another name.
#[derive(Debug, Clone)]
pub struct MappedCommand {
    /// The new alias.
    pub alias: String,
    /// The command the alias runs.
    pub target: String,
}

/// A host directory made visible inside the sandbox at a guest path.
///
/// `host` is the host path already resolved against the real filesystem;
/// `guest` may be relative or absolute.
#[derive(Debug, Clone)]
pub struct MappedDirectory {
    pub host: String,
    pub guest: String,
}

/// Why the composition stopped. Each carries the path that failed.
#[derive(Debug, Clone)]
pub enum SetupError {
    /// A path could not be brought to its canonical form.
    PathResolution { path: String },
    /// Mounting a host directory, or merging its entries into the root, failed.
    Mount { host: String, guest: String },
    /// A directory on the way to a mount point could not be created.
    DirectoryCreation { path: String },
}

} // verus!
