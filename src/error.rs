use vstd::prelude::*;

verus! {

/// The ways one run of the update or packaging flow can fail. Every step fails
/// fast: none of these is recovered from inside the library.
#[derive(Debug, Clone, Copy, PartialEq, Eq, Structural)]
pub enum UpdateError {
    /// The mirror could not be removed or cloned.
    MirrorError,
    /// The pinned revision is not exactly one commit of the history.
    ResolutionError,
    /// The upstream version string does not carry the expected marker suffix.
    VersionFormatError,
    /// A manifest could not be read or written.
    ManifestIOError,
    /// A known manifest field is missing or has the wrong shape.
    ManifestFormatError,
    /// A package that must be copied from the lock data is not in it.
    MissingLockEntryError,
    /// Staging or creating the commit failed.
    CommitError,
    /// The operating-system and architecture pair is not in the build table.
    UnsupportedTargetError,
    /// The external build command failed.
    BuildError,
}

} // verus!
