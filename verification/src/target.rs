//! The resolved descriptor of one job handed to the execution backend.

use vstd::prelude::*;

verus! {

use crate::config::{Runner, RunnerV, TargetConfig, TargetConfigV};

/// The fully resolved descriptor of one job: which project it belongs
/// to, the name it runs under, the engine that runs it, and where its
/// source comes from. The orchestrator builds a fresh copy for every
/// iteration, so no iteration can see another's mutations.
pub struct FuzzTarget {
    pname: String,
    name: String,
    runner: Runner,
    config: TargetConfig,
}

/// Mathematical value of a [`FuzzTarget`].
pub ghost struct FuzzTargetV {
    pub pname: Seq<char>,
    pub name: Seq<char>,
    pub runner: RunnerV,
    pub config: TargetConfigV,
}

impl View for FuzzTarget {
    type V = FuzzTargetV;

    closed spec fn view(&self) -> FuzzTargetV {
        FuzzTargetV {
            pname: self.pname@,
            name: self.name@,
            runner: self.runner@,
            config: self.config@,
        }
    }
}

impl FuzzTarget {
    /// Builds the descriptor of one job.
    pub fn new(pname: String, name: String, runner: Runner, config: TargetConfig) -> (r:
        FuzzTarget)
        ensures
            r@ == (FuzzTargetV { pname: pname@, name: name@, runner: runner@, config: config@ }),
    {
        FuzzTarget { pname, name, runner, config }
    }

    /// The name the job runs under.
    pub fn name(&self) -> (r: &str)
        ensures
            r@ == self@.name,
    {
        self.name.as_str()
    }

    /// The name of the project the job belongs to.
    pub fn project_name(&self) -> (r: &str)
        ensures
            r@ == self@.pname,
    {
        self.pname.as_str()
    }

    /// Where the job's source comes from and the folder it works in.
    pub fn config(&self) -> (r: &TargetConfig)
        ensures
            r@ == self@.config,
    {
        &self.config
    }

    /// The engine that runs the job.
    pub fn runner(&self) -> (r: &Runner)
        ensures
            r@ == self@.runner,
    {
        &self.runner
    }
}

} // verus!
