//! What can go wrong before any work is done.

use vstd::prelude::*;

verus! {

/// The kinds of failure that the orchestrator reports to its caller.
#[derive(PartialEq, Eq, Structural, Copy, Clone, Debug)]
pub enum ErrorKind {
    /// A required external tool is absent.
    MissingDependency,
    /// The input queue was seeded twice, or not at all.
    ConfigurationInvalid,
    /// No checkpoint could be found to resume from.
    CheckpointCorrupt,
    /// A staged artifact could not be found or never became free.
    ArtifactUnavailable,
}

/// A failure that the orchestrator reports to its caller.
#[derive(PartialEq, Eq, Structural, Copy, Clone, Debug)]
pub enum Error {
    /// The incremental copier was selected but `rsync` is not installed.
    RsyncMissing,
    /// `bash` is not installed.
    BashMissing,
    /// `lsof` is not installed.
    LsofMissing,
    /// The input queue has been seeded before.
    QueueAlreadySeeded,
    /// The input queue has not been seeded.
    QueueNotSeeded,
    /// There is no checkpoint to resume from.
    NoAutosaveData,
    /// The local time could not be written to name a new run.
    ClockUnavailable,
    /// A staged file does not exist.
    FileNotFound,
    /// A staged file is still held open by another process.
    FileNotReady,
}

impl Error {
    /// The kind of a failure.
    pub open spec fn spec_kind(self) -> ErrorKind {
        match self {
            Error::RsyncMissing | Error::BashMissing | Error::LsofMissing
            | Error::ClockUnavailable => ErrorKind::MissingDependency,
            Error::QueueAlreadySeeded | Error::QueueNotSeeded => ErrorKind::ConfigurationInvalid,
            Error::NoAutosaveData => ErrorKind::CheckpointCorrupt,
            Error::FileNotFound | Error::FileNotReady => ErrorKind::ArtifactUnavailable,
        }
    }

    /// The kind of this failure.
    pub fn kind(self) -> (k: ErrorKind)
        ensures
            k == self.spec_kind(),
    {
        match self {
            Error::RsyncMissing | Error::BashMissing | Error::LsofMissing
            | Error::ClockUnavailable => ErrorKind::MissingDependency,
            Error::QueueAlreadySeeded | Error::QueueNotSeeded => ErrorKind::ConfigurationInvalid,
            Error::NoAutosaveData => ErrorKind::CheckpointCorrupt,
            Error::FileNotFound | Error::FileNotReady => ErrorKind::ArtifactUnavailable,
        }
    }

    /// The text of a failure.
    pub open spec fn spec_message(self) -> Seq<char> {
        match self {
            Error::RsyncMissing => {
                "rsync is not installed, set `without_rsync` to true to ignore"@
            },
            Error::BashMissing => "bash is not installed"@,
            Error::LsofMissing => {
                "lsof is not installed, which may lead to strange problems that are difficult to reproduce"@
            },
            Error::QueueAlreadySeeded => "Data queue receiver is already initialized"@,
            Error::QueueNotSeeded => "Data queue receiver is not initialized"@,
            Error::NoAutosaveData => "No autosave data found, consider running without --continue"@,
            Error::ClockUnavailable => "the local time is not available"@,
            Error::FileNotFound => "File not found"@,
            Error::FileNotReady => "File is not ready"@,
        }
    }

    /// The text of this failure, for the caller to show.
    pub fn message(self) -> (m: &'static str)
        ensures
            m@ == self.spec_message(),
    {
        match self {
            Error::RsyncMissing => "rsync is not installed, set `without_rsync` to true to ignore",
            Error::BashMissing => "bash is not installed",
            Error::LsofMissing => {
                "lsof is not installed, which may lead to strange problems that are difficult to reproduce"
            },
            Error::QueueAlreadySeeded => "Data queue receiver is already initialized",
            Error::QueueNotSeeded => "Data queue receiver is not initialized",
            Error::NoAutosaveData => "No autosave data found, consider running without --continue",
            Error::ClockUnavailable => "the local time is not available",
            Error::FileNotFound => "File not found",
            Error::FileNotReady => "File is not ready",
        }
    }
}

} // verus!
