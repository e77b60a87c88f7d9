//! The per-job run orchestrator: the lifecycle state machine that
//! registers a job, hands the execution backend a fresh descriptor,
//! forwards produced artifacts to the store, and deregisters the job
//! — looping while the job is configured to repeat and no stop was
//! asked for.
//!
//! The orchestrator owns the decisions; the caller owns the waiting.
//! One iteration is: [`JobRun::descriptor`], run the backend outside,
//! [`JobRun::collect`] with the outcome, then [`JobRun::continue_run`]
//! — and [`JobRun::deregister`] runs at the end whatever the
//! iterations did, so no finished run leaves its name behind.

use vstd::prelude::*;

verus! {

use crate::registry::JobRegistry;
use crate::runner::{ExecOutcome, ExecOutcomeV};
use crate::storage::{
    apply_store_results, results_for_rows, ResultRowV, StorageRequest, StorageRequestV, Store,
    StoreV,
};
use crate::target::{FuzzTarget, FuzzTargetV};
use crate::{views_of, FuzzResult, FuzzResultV, RunRequest, RunRequestV};

/// Where a submitted job is in its lifecycle.
#[derive(Clone, Copy, PartialEq, Eq, Structural, Debug)]
pub enum JobPhase {
    /// Submitted, not yet in the registry.
    Idle,
    /// In the registry, waiting for an iteration to start.
    Registered,
    /// An iteration's descriptor is out with the execution backend.
    Executing,
    /// The backend came back; artifacts, if any, go to the store.
    Collecting,
    /// Out of the registry; the run is over.
    Deregistered,
}

/// Mathematical value of a [`JobRun`].
pub ghost struct JobRunV {
    pub req: RunRequestV,
    pub phase: JobPhase,
}

impl JobRunV {
    /// A run is live from registration to deregistration; exactly
    /// then its name belongs in the registry.
    pub open spec fn live(self) -> bool {
        self.phase == JobPhase::Registered || self.phase == JobPhase::Executing || self.phase
            == JobPhase::Collecting
    }
}

/// The result rows one iteration appends: one row per artifact, under
/// the job's project, each named after the job, in artifact order.
pub open spec fn result_rows_of(req: RunRequestV, arts: Seq<Seq<u8>>) -> Seq<ResultRowV> {
    Seq::new(
        arts.len(),
        |i: int|
            ResultRowV {
                project: req.pname,
                result: FuzzResultV { name: req.name, content: arts[i] },
            },
    )
}

/// The artifact records one iteration stores, as they later read back
/// from the store.
pub open spec fn results_of_arts(req: RunRequestV, arts: Seq<Seq<u8>>) -> Seq<FuzzResultV> {
    Seq::new(arts.len(), |i: int| FuzzResultV { name: req.name, content: arts[i] })
}

/// The coupling of one run to the registry, held at every step of
/// the lifecycle: while the run is live its name is registered, and
/// once it is deregistered its name is not.
pub open spec fn coupled(j: JobRunV, reg: Set<Seq<char>>) -> bool {
    &&& j.live() ==> reg.contains(j.req.name)
    &&& j.phase == JobPhase::Deregistered ==> !reg.contains(j.req.name)
}

/// The storage requests one iteration owes: one store-result request
/// per artifact, in order.
pub open spec fn store_requests_of(req: RunRequestV, arts: Seq<Seq<u8>>) -> Seq<StorageRequestV> {
    Seq::new(
        arts.len(),
        |i: int|
            StorageRequestV::StoreResult {
                project_name: req.pname,
                result: FuzzResultV { name: req.name, content: arts[i] },
            },
    )
}

/// A sequence of requests applied to the store in order, as the
/// storage actor applies what it receives.
pub open spec fn apply_requests(s: StoreV, reqs: Seq<StorageRequestV>) -> StoreV
    decreases reqs.len(),
{
    if reqs.len() == 0 {
        s
    } else {
        apply_requests(s, reqs.drop_last()).apply_request(reqs.last())
    }
}

/// Law: sending the requests of [`JobRun::collect_requests`] through
/// the storage actor leaves the store exactly where
/// [`JobRun::collect`] would have put it: the two ways of collecting
/// an outcome agree.
pub proof fn lemma_collect_requests_apply(s: StoreV, req: RunRequestV, arts: Seq<Seq<u8>>)
    ensures
        apply_requests(s, store_requests_of(req, arts)) == apply_store_results(
            s,
            result_rows_of(req, arts),
        ),
    decreases arts.len(),
{
    if arts.len() == 0 {
        assert(store_requests_of(req, arts) =~= Seq::<StorageRequestV>::empty());
        assert(result_rows_of(req, arts) =~= Seq::<ResultRowV>::empty());
    } else {
        lemma_collect_requests_apply(s, req, arts.drop_last());
        assert(store_requests_of(req, arts).drop_last() =~= store_requests_of(
            req,
            arts.drop_last(),
        ));
        assert(result_rows_of(req, arts).drop_last() =~= result_rows_of(req, arts.drop_last()));
    }
}

/// The lifecycle state of one submitted job.
pub struct JobRun {
    req: RunRequest,
    phase: JobPhase,
}

impl View for JobRun {
    type V = JobRunV;

    closed spec fn view(&self) -> JobRunV {
        JobRunV { req: self.req@, phase: self.phase }
    }
}

impl JobRun {
    /// A freshly submitted job: not yet registered.
    pub fn new(req: RunRequest) -> (r: JobRun)
        ensures
            r@.req == req@,
            r@.phase == JobPhase::Idle,
    {
        JobRun { req, phase: JobPhase::Idle }
    }

    /// The request the job was submitted with.
    pub fn request(&self) -> (r: &RunRequest)
        ensures
            r@ == self@.req,
    {
        &self.req
    }

    /// Registers the job: puts its name into the registry and enters
    /// the lifecycle. Returns `false`, changing the phase not at all,
    /// when a job of this name is already running — duplicate names
    /// are refused rather than run side by side, so deregistration
    /// can never remove another live run's entry.
    pub fn register(&mut self, registry: &mut JobRegistry) -> (ok: bool)
        requires
            old(self)@.phase == JobPhase::Idle,
            old(registry).wf(),
        ensures
            final(registry).wf(),
            final(self)@.req == old(self)@.req,
            ok == !old(registry)@.contains(old(self)@.req.name),
            final(registry)@ == old(registry)@.insert(old(self)@.req.name),
            final(self)@.phase == (if ok {
                JobPhase::Registered
            } else {
                JobPhase::Idle
            }),
            ok ==> final(registry)@.contains(final(self)@.req.name),
            coupled(final(self)@, final(registry)@),
    {
        let ok = registry.insert(self.req.name.clone());
        if ok {
            self.phase = JobPhase::Registered;
        }
        ok
    }

    /// Starts one iteration: hands out a fresh, independent copy of
    /// the resolved descriptor, so nothing an iteration does can
    /// reach the job's own configuration.
    pub fn descriptor(&mut self) -> (t: FuzzTarget)
        requires
            old(self)@.phase == JobPhase::Registered,
        ensures
            final(self)@.req == old(self)@.req,
            final(self)@.phase == JobPhase::Executing,
            forall|reg: Set<Seq<char>>| coupled(old(self)@, reg) ==> coupled(final(self)@, reg),
            t@ == (FuzzTargetV {
                pname: old(self)@.req.pname,
                name: old(self)@.req.name,
                runner: old(self)@.req.runner,
                config: old(self)@.req.config,
            }),
    {
        self.phase = JobPhase::Executing;
        FuzzTarget::new(
            self.req.pname.clone(),
            self.req.name.clone(),
            self.req.runner.clone(),
            self.req.config.clone(),
        )
    }

    /// Takes the backend's outcome for the running iteration and
    /// forwards every produced artifact to the store, keyed by the
    /// job's project and named after the job. An outcome without
    /// artifacts — cancelled, failed, or simply crash-free — stores
    /// nothing; either way the iteration moves on to its end, so a
    /// failed iteration still reaches deregistration.
    pub fn collect(&mut self, outcome: ExecOutcome, store: &mut Store)
        requires
            old(self)@.phase == JobPhase::Executing,
            old(store).wf(),
        ensures
            final(store).wf(),
            final(self)@.req == old(self)@.req,
            final(self)@.phase == JobPhase::Collecting,
            forall|reg: Set<Seq<char>>| coupled(old(self)@, reg) ==> coupled(final(self)@, reg),
            final(store)@ == apply_store_results(
                old(store)@,
                result_rows_of(old(self)@.req, outcome@.artifacts()),
            ),
    {
        let ghost pre = store@;
        let ghost req_v = self@.req;
        match outcome {
            ExecOutcome::Artifacts(arts) => {
                let ghost arts_v = views_of(arts@);
                let mut i: usize = 0;
                while i < arts.len()
                    invariant
                        i <= arts@.len(),
                        arts_v == views_of(arts@),
                        req_v == self@.req,
                        self.req@ == req_v,
                        store.wf(),
                        store@ == apply_store_results(
                            pre,
                            result_rows_of(req_v, arts_v.subrange(0, i as int)),
                        ),
                    decreases arts@.len() - i,
                {
                    let ghost rows_pre = result_rows_of(req_v, arts_v.subrange(0, i as int));
                    let ghost rows_post = result_rows_of(req_v, arts_v.subrange(0, i as int + 1));
                    proof {
                        assert(rows_post.drop_last() =~= rows_pre);
                    }
                    let content = crate::clone_bytes(&arts[i]);
                    let data = FuzzResult::new(self.req.name.clone(), content);
                    store.store_result(self.req.pname.clone(), data);
                    i = i + 1;
                }
                proof {
                    assert(arts_v.subrange(0, arts@.len() as int) =~= arts_v);
                }
            },
            ExecOutcome::Cancelled => {
                proof {
                    assert(result_rows_of(req_v, Seq::empty()) =~= Seq::<ResultRowV>::empty());
                }
            },
            ExecOutcome::CheckoutFailed => {
                proof {
                    assert(result_rows_of(req_v, Seq::empty()) =~= Seq::<ResultRowV>::empty());
                }
            },
            ExecOutcome::LaunchFailed => {
                proof {
                    assert(result_rows_of(req_v, Seq::empty()) =~= Seq::<ResultRowV>::empty());
                }
            },
        }
        self.phase = JobPhase::Collecting;
    }

    /// Takes the backend's outcome and turns it into the storage
    /// requests the iteration owes: one store-result request per
    /// artifact, in order, keyed by the job's project and named after
    /// the job. This is [`JobRun::collect`] for a store that lives
    /// behind the storage actor: the caller sends each request on and
    /// the actor applies them; by
    /// [`lemma_collect_requests_apply`] the store then ends exactly
    /// where [`JobRun::collect`] would have put it.
    pub fn collect_requests(&mut self, outcome: ExecOutcome) -> (reqs: Vec<StorageRequest>)
        requires
            old(self)@.phase == JobPhase::Executing,
        ensures
            final(self)@.req == old(self)@.req,
            final(self)@.phase == JobPhase::Collecting,
            forall|reg: Set<Seq<char>>| coupled(old(self)@, reg) ==> coupled(final(self)@, reg),
            views_of(reqs@) == store_requests_of(old(self)@.req, outcome@.artifacts()),
    {
        let ghost req_v = self@.req;
        let mut reqs: Vec<StorageRequest> = Vec::new();
        match outcome {
            ExecOutcome::Artifacts(arts) => {
                let ghost arts_v = views_of(arts@);
                let mut i: usize = 0;
                while i < arts.len()
                    invariant
                        i <= arts@.len(),
                        arts_v == views_of(arts@),
                        req_v == self@.req,
                        views_of(reqs@) =~= store_requests_of(req_v, arts_v.subrange(0, i as int)),
                    decreases arts@.len() - i,
                {
                    let ghost reqs_pre = reqs@;
                    let content = crate::clone_bytes(&arts[i]);
                    let item = StorageRequest::StoreResult {
                        project_name: self.req.pname.clone(),
                        result: FuzzResult::new(self.req.name.clone(), content),
                    };
                    let ghost item_g = item;
                    proof {
                        assert(item_g@ == (StorageRequestV::StoreResult {
                            project_name: req_v.pname,
                            result: FuzzResultV { name: req_v.name, content: arts_v[i as int] },
                        }));
                    }
                    reqs.push(item);
                    i = i + 1;
                    proof {
                        assert(views_of(reqs_pre).len() == reqs_pre.len());
                        assert(reqs@ == reqs_pre.push(item_g));
                        let m = store_requests_of(req_v, arts_v.subrange(0, i as int));
                        assert forall|k: int| 0 <= k < m.len() implies views_of(reqs@)[k] == m[k]
                            by {
                            if k < i - 1 {
                                assert(reqs@[k] == reqs_pre[k]);
                                assert(views_of(reqs_pre)[k] == store_requests_of(
                                    req_v,
                                    arts_v.subrange(0, i as int - 1),
                                )[k]);
                            } else {
                                assert(reqs@[k] == item_g);
                            }
                        }
                        assert(views_of(reqs@) =~= m);
                    }
                }
                proof {
                    assert(arts_v.subrange(0, arts@.len() as int) =~= arts_v);
                }
            },
            _ => {
                proof {
                    assert(views_of(reqs@) =~= store_requests_of(req_v, outcome@.artifacts()));
                }
            },
        }
        self.phase = JobPhase::Collecting;
        reqs
    }

    /// Decides whether another iteration runs: only a job configured
    /// as repeating loops, and an externally asked stop ends even a
    /// repeating job. The flag is read from the job's own request,
    /// fixed at submission, not re-read mid-run.
    pub fn continue_run(&mut self, stop: bool) -> (again: bool)
        requires
            old(self)@.phase == JobPhase::Collecting,
        ensures
            final(self)@.req == old(self)@.req,
            again == (old(self)@.req.repeating && !stop),
            forall|reg: Set<Seq<char>>| coupled(old(self)@, reg) ==> coupled(final(self)@, reg),
            final(self)@.phase == (if again {
                JobPhase::Registered
            } else {
                JobPhase::Collecting
            }),
    {
        if self.req.repeating && !stop {
            self.phase = JobPhase::Registered;
            true
        } else {
            false
        }
    }

    /// Ends the run: removes the job's name from the registry,
    /// unconditionally. This runs after good and bad iterations
    /// alike, so no failure leaves the registry occupied.
    pub fn deregister(&mut self, registry: &mut JobRegistry)
        requires
            old(self)@.phase == JobPhase::Collecting,
            old(registry).wf(),
        ensures
            final(registry).wf(),
            final(self)@.req == old(self)@.req,
            final(self)@.phase == JobPhase::Deregistered,
            final(registry)@ == old(registry)@.remove(old(self)@.req.name),
            !final(registry)@.contains(final(self)@.req.name),
            coupled(final(self)@, final(registry)@),
    {
        registry.remove(&self.req.name);
        self.phase = JobPhase::Deregistered;
    }
}

/// The store after a whole run's iterations: each iteration appends
/// the result rows of its outcome's artifacts, in order.
pub open spec fn apply_iterations(
    s: StoreV,
    req: RunRequestV,
    outcomes: Seq<ExecOutcomeV>,
) -> StoreV
    decreases outcomes.len(),
{
    if outcomes.len() == 0 {
        s
    } else {
        apply_store_results(
            apply_iterations(s, req, outcomes.drop_last()),
            result_rows_of(req, outcomes.last().artifacts()),
        )
    }
}

/// Every artifact a whole run stores, in order: the artifacts of each
/// iteration's outcome, as they later read back from the store.
pub open spec fn stored_of(req: RunRequestV, outcomes: Seq<ExecOutcomeV>) -> Seq<FuzzResultV>
    decreases outcomes.len(),
{
    if outcomes.len() == 0 {
        Seq::empty()
    } else {
        stored_of(req, outcomes.drop_last()) + results_of_arts(req, outcomes.last().artifacts())
    }
}

/// One iteration's rows, read back for a project: everything for the
/// job's own project, nothing for any other.
proof fn lemma_result_rows_read_back(req: RunRequestV, arts: Seq<Seq<u8>>, p: Seq<char>)
    ensures
        p == req.pname ==> results_for_rows(result_rows_of(req, arts), p) =~= results_of_arts(
            req,
            arts,
        ),
        p != req.pname ==> results_for_rows(result_rows_of(req, arts), p) =~= Seq::<
            FuzzResultV,
        >::empty(),
    decreases arts.len(),
{
    if arts.len() > 0 {
        lemma_result_rows_read_back(req, arts.drop_last(), p);
        assert(result_rows_of(req, arts).drop_last() =~= result_rows_of(req, arts.drop_last()));
    } else {
        assert(result_rows_of(req, arts) =~= Seq::<ResultRowV>::empty());
    }
}

/// Law: across any number of iterations, with any mixture of
/// successes and failures, the job's project accumulates exactly the
/// artifacts of the successful iterations, in order — no loss, no
/// duplication — and no other project's results move at all.
pub proof fn lemma_iterations_store_exactly(
    s: StoreV,
    req: RunRequestV,
    outcomes: Seq<ExecOutcomeV>,
    p: Seq<char>,
)
    ensures
        p == req.pname ==> apply_iterations(s, req, outcomes).results_for(p) == s.results_for(p)
            + stored_of(req, outcomes),
        p != req.pname ==> apply_iterations(s, req, outcomes).results_for(p) == s.results_for(p),
    decreases outcomes.len(),
{
    if outcomes.len() == 0 {
        assert(s.results_for(p) + stored_of(req, outcomes) =~= s.results_for(p));
    } else {
        let dl = outcomes.drop_last();
        let arts = outcomes.last().artifacts();
        lemma_iterations_store_exactly(s, req, dl, p);
        crate::storage::lemma_store_results_exact(
            apply_iterations(s, req, dl),
            result_rows_of(req, arts),
            p,
        );
        lemma_result_rows_read_back(req, arts, p);
        if p == req.pname {
            assert(s.results_for(p) + stored_of(req, dl) + results_of_arts(req, arts)
                =~= s.results_for(p) + stored_of(req, outcomes));
        } else {
            assert(apply_iterations(s, req, outcomes).results_for(p) =~= s.results_for(p));
        }
    }
}

/// Law: a registered job is visible in the running-jobs set through
/// its whole live span — registered, executing, collecting — and is
/// gone once deregistered; nobody else's entry is touched by either
/// step. The registration and deregistration deltas here are exactly
/// the ones [`JobRun::register`] and [`JobRun::deregister`] promise,
/// and no step in between takes the registry at all, on success and
/// failure paths alike.
pub proof fn lemma_job_visibility(req: RunRequestV, reg0: Set<Seq<char>>)
    requires
        !reg0.contains(req.name),
    ensures
        reg0.insert(req.name).contains(req.name),
        !reg0.insert(req.name).remove(req.name).contains(req.name),
        forall|m: Seq<char>|
            m != req.name ==> reg0.insert(req.name).remove(req.name).contains(m) == reg0.contains(
                m,
            ),
{
}

/// Law: a repeating job whose iterations succeed and fail in any
/// alternation still deregisters after an externally triggered stop,
/// without leaking the workspace of the in-flight iteration: the
/// registry ends without the name (and otherwise as it began), and
/// the stopped iteration's backend, being done, has no workspace left.
pub proof fn lemma_repeating_stop_clean(
    req: RunRequestV,
    reg0: Set<Seq<char>>,
    inflight: crate::runner::BackendRunV,
)
    requires
        !reg0.contains(req.name),
        inflight.wf(),
        inflight.phase == crate::runner::BackendPhase::Done,
    ensures
        !reg0.insert(req.name).remove(req.name).contains(req.name),
        forall|m: Seq<char>|
            m != req.name ==> reg0.insert(req.name).remove(req.name).contains(m) == reg0.contains(
                m,
            ),
        inflight.workspace != crate::runner::WorkspaceState::Present,
{
    crate::runner::lemma_done_is_clean(inflight);
}

} // verus!
