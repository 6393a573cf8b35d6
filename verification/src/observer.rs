//! What the settings window's read-only view of the database last read,
//! so a watcher can skip file events that changed nothing.

use vstd::prelude::*;

verus! {

/// The database's data version when the window last read it; another
/// connection's commit changes the version.
#[derive(Clone, Copy, Debug, PartialEq, Eq, Structural)]
pub struct ReadVersion {
    pub read_version: Option<i64>,
}

impl ReadVersion {
    /// Nothing read yet.
    pub fn new() -> (v: Self)
        ensures
            v.read_version is None,
    {
        ReadVersion { read_version: None }
    }

    /// Whether a change was committed since the last read, given the
    /// database's `current` version, or nothing was read yet.
    pub fn changed(&self, current: i64) -> (changed: bool)
        ensures
            changed == (self.read_version != Some(current)),
    {
        match self.read_version {
            Some(version) => version != current,
            None => true,
        }
    }

    /// Remembers that the window read the database at `version`.
    pub fn mark_read(&mut self, version: i64)
        ensures
            final(self).read_version == Some(version),
    {
        self.read_version = Some(version);
    }
}

} // verus!
