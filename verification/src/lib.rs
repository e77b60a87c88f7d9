//! A verified model of a fuzzing-campaign orchestration service.
//!
//! The library holds the logic of the service: the configuration data
//! model, the storage state machine that owns projects, targets and
//! results, the registry of running jobs, the execution-backend state
//! machine with its cleanup guarantee, and the per-job run orchestrator.
//! All I/O (the HTTP surface, the database connection, process
//! supervision) lives outside the library and drives these state
//! machines with plain values.

use vstd::prelude::*;

pub mod config;
pub mod encoding;
pub mod orchestrator;
pub mod project;
pub mod registry;
pub mod runner;
pub mod storage;

mod target;

pub use config::{Runner, TargetConfig};
pub use target::FuzzTarget;

verus! {

use crate::config::{RunnerV, TargetConfigV};
use crate::registry::JobRegistry;
use crate::storage::{Store, StoreV};

/// The sequence of views of a sequence of values.
pub open spec fn views_of<T: View>(s: Seq<T>) -> Seq<T::V> {
    Seq::new(s.len(), |i: int| s[i]@)
}

/// One crash artifact produced by a fuzzing run: the name of the job
/// that produced it and the raw input bytes.
#[derive(Debug, PartialEq, Eq)]
pub struct FuzzResult {
    /// The name of the job (target) that produced this artifact.
    pub name: String,
    /// The artifact input bytes.
    pub content: Vec<u8>,
}

/// Mathematical value of a [`FuzzResult`].
pub ghost struct FuzzResultV {
    pub name: Seq<char>,
    pub content: Seq<u8>,
}

impl View for FuzzResult {
    type V = FuzzResultV;

    open spec fn view(&self) -> FuzzResultV {
        FuzzResultV { name: self.name@, content: self.content@ }
    }
}

/// A copy of a byte buffer, equal element by element.
pub(crate) fn clone_bytes(v: &Vec<u8>) -> (r: Vec<u8>)
    ensures
        r@ == v@,
{
    let mut r: Vec<u8> = Vec::new();
    let mut i: usize = 0;
    while i < v.len()
        invariant
            i <= v@.len(),
            r@ =~= v@.subrange(0, i as int),
        decreases v@.len() - i,
    {
        r.push(v[i]);
        i = i + 1;
    }
    proof {
        assert(v@.subrange(0, v@.len() as int) =~= v@);
    }
    r
}

impl Clone for FuzzResult {
    fn clone(&self) -> (r: Self)
        ensures
            r@ == self@,
    {
        FuzzResult { name: self.name.clone(), content: clone_bytes(&self.content) }
    }
}

impl FuzzResult {
    /// Builds an artifact record from a job name and its bytes.
    pub fn new(name: String, content: Vec<u8>) -> (r: FuzzResult)
        ensures
            r@ == (FuzzResultV { name: name@, content: content@ }),
    {
        FuzzResult { name, content }
    }
}

/// The shared state of the whole service: the registry of running
/// job names, read by the status query and kept by the orchestrator,
/// and the store owned by the storage actor. The two are the only
/// state the service has; everything else is per-job.
pub struct State {
    /// The names of the currently running jobs.
    pub running: JobRegistry,
    /// The content of the persistent store.
    pub store: Store,
}

impl State {
    /// Well-formedness of both halves.
    pub open spec fn wf(self) -> bool {
        self.running.wf() && self.store.wf()
    }

    /// The state of a service that has seen nothing yet: no running
    /// job, an empty store.
    pub fn new() -> (r: State)
        ensures
            r.wf(),
            r.running@ == Set::<Seq<char>>::empty(),
            r.store@ == StoreV::empty(),
    {
        State { running: JobRegistry::new(), store: Store::new() }
    }
}

/// Everything a single job run needs: the project it belongs to, the
/// name it runs under, the engine that runs it, where its source comes
/// from, and whether it repeats.
#[derive(Debug, PartialEq, Eq)]
pub struct RunRequest {
    /// The name of the project the job belongs to.
    pub pname: String,
    /// The name the job runs under; this is the key held in the job
    /// registry while the job is live.
    pub name: String,
    /// The engine that runs the job.
    pub runner: Runner,
    /// Where the job's source comes from and the folder it works in.
    pub config: TargetConfig,
    /// Whether the job loops after a finished iteration.
    pub repeating: bool,
}

/// Mathematical value of a [`RunRequest`].
pub ghost struct RunRequestV {
    pub pname: Seq<char>,
    pub name: Seq<char>,
    pub runner: RunnerV,
    pub config: TargetConfigV,
    pub repeating: bool,
}

impl View for RunRequest {
    type V = RunRequestV;

    open spec fn view(&self) -> RunRequestV {
        RunRequestV {
            pname: self.pname@,
            name: self.name@,
            runner: self.runner@,
            config: self.config@,
            repeating: self.repeating,
        }
    }
}

impl Clone for RunRequest {
    fn clone(&self) -> (r: Self)
        ensures
            r@ == self@,
    {
        RunRequest {
            pname: self.pname.clone(),
            name: self.name.clone(),
            runner: self.runner.clone(),
            config: self.config.clone(),
            repeating: self.repeating,
        }
    }
}

} // verus!
