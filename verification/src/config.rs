//! The resolved per-job configuration: which engine runs the job and
//! where its source is checked out from.
//!
//! These mirror the stored model in [`crate::project`], but describe
//! one job that is about to run rather than a stored record: the
//! [`TargetConfig`] carries the source together with the folder the
//! job works in.

use vstd::prelude::*;

verus! {

/// The engine that runs one job.
#[derive(Debug, PartialEq, Eq)]
pub enum Runner {
    /// Run the job through `cargo fuzz`.
    CargoFuzz {
        /// The name of the fuzzing target handed to the fuzz tool.
        target: String,
    },
}

/// Mathematical value of a [`Runner`].
pub ghost enum RunnerV {
    CargoFuzz { target: Seq<char> },
}

impl View for Runner {
    type V = RunnerV;

    open spec fn view(&self) -> RunnerV {
        match self {
            Runner::CargoFuzz { target } => RunnerV::CargoFuzz { target: target@ },
        }
    }
}

impl Clone for Runner {
    fn clone(&self) -> (r: Self)
        ensures
            r@ == self@,
    {
        match self {
            Runner::CargoFuzz { target } => Runner::CargoFuzz { target: target.clone() },
        }
    }
}

/// Where one job's source comes from and where inside it the job runs.
#[derive(Debug, PartialEq, Eq)]
pub enum TargetConfig {
    /// Clone a git repository and work in the given folder inside it.
    Git {
        /// The repository link.
        repo: String,
        /// The folder of the checked-out tree in which the job runs.
        folder: String,
    },
}

/// Mathematical value of a [`TargetConfig`].
pub ghost enum TargetConfigV {
    Git { repo: Seq<char>, folder: Seq<char> },
}

impl View for TargetConfig {
    type V = TargetConfigV;

    open spec fn view(&self) -> TargetConfigV {
        match self {
            TargetConfig::Git { repo, folder } => TargetConfigV::Git {
                repo: repo@,
                folder: folder@,
            },
        }
    }
}

impl Clone for TargetConfig {
    fn clone(&self) -> (r: Self)
        ensures
            r@ == self@,
    {
        match self {
            TargetConfig::Git { repo, folder } => TargetConfig::Git {
                repo: repo.clone(),
                folder: folder.clone(),
            },
        }
    }
}

} // verus!
