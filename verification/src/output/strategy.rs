//! The write-decision table: from a file's status and the write policy to
//! what is done with the file.

use vstd::prelude::*;

verus! {

/// How an output file relates to the record of its last render.
#[derive(Clone, Copy, Debug, PartialEq, Eq, Structural)]
pub enum FileStatus {
    /// No record exists for the path.
    NotTracked,
    /// The file on disk and all of its inputs are as recorded.
    Unchanged,
    /// The file on disk is as recorded, but an input changed since.
    Stale,
    /// The file on disk differs from what was last written.
    Modified,
}

/// What is done with an output file.
#[derive(Clone, Copy, Debug, PartialEq, Eq, Structural)]
pub enum Decision {
    /// The file is written because it is new or out of date.
    Write,
    /// The file is written although the policy alone asked for it.
    ForceWrite,
    /// The file is left alone because it is up to date.
    Skip,
    /// The file is left alone because it was edited by hand.
    Conflict,
}

/// The write policy of a run.
#[derive(Clone, Copy, Debug, PartialEq, Eq, Structural)]
pub enum WriteMode {
    /// Conflicts are respected: a hand-edited file is never overwritten.
    Normal,
    /// Every file is written again, hand-edited ones included.
    Force,
}

/// The decision table.
pub open spec fn decide_spec(status: FileStatus, mode: WriteMode) -> Decision {
    match (status, mode) {
        (FileStatus::NotTracked, _) => Decision::Write,
        (FileStatus::Stale, _) => Decision::Write,
        (FileStatus::Unchanged, WriteMode::Normal) => Decision::Skip,
        (FileStatus::Unchanged, WriteMode::Force) => Decision::ForceWrite,
        (FileStatus::Modified, WriteMode::Normal) => Decision::Conflict,
        (FileStatus::Modified, WriteMode::Force) => Decision::ForceWrite,
    }
}

/// Whether a decision leads to the file being written.
pub open spec fn writes(decision: Decision) -> bool {
    decision == Decision::Write || decision == Decision::ForceWrite
}

/// The label under which a decision is reported.
pub open spec fn label_spec(decision: Decision) -> Seq<char> {
    match decision {
        Decision::Write => "new or stale"@,
        Decision::ForceWrite => "forced"@,
        Decision::Skip => "unchanged"@,
        Decision::Conflict => "conflict"@,
    }
}

/// Decides what to do with a file of the given status under the given policy.
pub fn decide(status: FileStatus, mode: WriteMode) -> (decision: Decision)
    ensures
        decision == decide_spec(status, mode),
{
    match status {
        FileStatus::NotTracked => Decision::Write,
        FileStatus::Stale => Decision::Write,
        FileStatus::Unchanged => match mode {
            WriteMode::Normal => Decision::Skip,
            WriteMode::Force => Decision::ForceWrite,
        },
        FileStatus::Modified => match mode {
            WriteMode::Normal => Decision::Conflict,
            WriteMode::Force => Decision::ForceWrite,
        },
    }
}

impl Decision {
    /// Whether the file is to be written.
    pub fn should_write(&self) -> (b: bool)
        ensures
            b == writes(*self),
    {
        match self {
            Decision::Write => true,
            Decision::ForceWrite => true,
            Decision::Skip => false,
            Decision::Conflict => false,
        }
    }

    /// A short human-readable label for the decision, for reports.
    pub fn log_action(&self) -> (label: &'static str)
        ensures
            label@ == label_spec(*self),
    {
        match self {
            Decision::Write => "new or stale",
            Decision::ForceWrite => "forced",
            Decision::Skip => "unchanged",
            Decision::Conflict => "conflict",
        }
    }
}

/// Under the forcing policy every file is written, whatever its status.
pub proof fn lemma_force_always_writes(status: FileStatus)
    ensures
        writes(decide_spec(status, WriteMode::Force)),
{
}

/// Under the normal policy a file is written exactly when it is untracked or
/// stale; a hand-edited file gives a conflict and an up-to-date one is skipped.
pub proof fn lemma_normal_respects_edits(status: FileStatus)
    ensures
        writes(decide_spec(status, WriteMode::Normal)) <==> (status == FileStatus::NotTracked
            || status == FileStatus::Stale),
        status == FileStatus::Modified ==> decide_spec(status, WriteMode::Normal)
            == Decision::Conflict,
        status == FileStatus::Unchanged ==> decide_spec(status, WriteMode::Normal)
            == Decision::Skip,
{
}

} // verus!
