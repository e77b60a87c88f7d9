//! The storage state machine: the single owner of projects, targets
//! and results.
//!
//! [`Store`] is the logical content of the persistent store, laid out
//! as the three tables the service keeps: project rows keyed by name,
//! target rows keyed by (project, target name), and append-only result
//! rows. The storage actor owns one `Store` (or a persistent mirror of
//! it) and applies every [`StorageRequest`] to it in arrival order;
//! [`Store::handle`] is that dispatch, and its contract pins both the
//! new store content and the [`StorageResult`] sent back for each
//! request kind.

use vstd::prelude::*;

verus! {

use crate::project::{Project, ProjectV, Source, SourceV, Target, TargetV};
use crate::{views_of, FuzzResult, FuzzResultV};

/// One row of the projects table: a project's name and source.
pub struct ProjectRow {
    /// The project name, the row's unique key.
    pub name: String,
    /// The source of the project's code.
    pub source: Source,
}

/// Mathematical value of a [`ProjectRow`].
pub ghost struct ProjectRowV {
    pub name: Seq<char>,
    pub source: SourceV,
}

impl View for ProjectRow {
    type V = ProjectRowV;

    open spec fn view(&self) -> ProjectRowV {
        ProjectRowV { name: self.name@, source: self.source@ }
    }
}

/// One row of the targets table: a target and the project it belongs
/// to. The pair (project, target name) is the row's unique key.
pub struct TargetRow {
    /// The name of the project the target belongs to.
    pub project: String,
    /// The target itself.
    pub target: Target,
}

/// Mathematical value of a [`TargetRow`].
pub ghost struct TargetRowV {
    pub project: Seq<char>,
    pub target: TargetV,
}

impl View for TargetRow {
    type V = TargetRowV;

    open spec fn view(&self) -> TargetRowV {
        TargetRowV { project: self.project@, target: self.target@ }
    }
}

/// One row of the results table: an artifact and the project it was
/// produced for. Rows are append-only and never deduplicated.
pub struct ResultRow {
    /// The name of the project the artifact belongs to.
    pub project: String,
    /// The artifact itself.
    pub result: FuzzResult,
}

/// Mathematical value of a [`ResultRow`].
pub ghost struct ResultRowV {
    pub project: Seq<char>,
    pub result: FuzzResultV,
}

impl View for ResultRow {
    type V = ResultRowV;

    open spec fn view(&self) -> ResultRowV {
        ResultRowV { project: self.project@, result: self.result@ }
    }
}

/// Mathematical content of the store: the three tables as sequences
/// of rows, each in insertion order.
pub ghost struct StoreV {
    pub projects: Seq<ProjectRowV>,
    pub targets: Seq<TargetRowV>,
    pub results: Seq<ResultRowV>,
}

/// The result rows of one project, in insertion order.
pub open spec fn results_for_rows(rows: Seq<ResultRowV>, pname: Seq<char>) -> Seq<FuzzResultV>
    decreases rows.len(),
{
    if rows.len() == 0 {
        Seq::empty()
    } else {
        let rest = results_for_rows(rows.drop_last(), pname);
        if rows.last().project == pname {
            rest.push(rows.last().result)
        } else {
            rest
        }
    }
}

/// The result rows with any other project kept, in order: what a
/// cascading project delete leaves of the results table.
pub open spec fn results_without_project(rows: Seq<ResultRowV>, pname: Seq<char>) -> Seq<
    ResultRowV,
>
    decreases rows.len(),
{
    if rows.len() == 0 {
        Seq::empty()
    } else {
        let rest = results_without_project(rows.drop_last(), pname);
        if rows.last().project == pname {
            rest
        } else {
            rest.push(rows.last())
        }
    }
}

/// The target rows of one project, in insertion order.
pub open spec fn targets_for_rows(rows: Seq<TargetRowV>, pname: Seq<char>) -> Seq<TargetV>
    decreases rows.len(),
{
    if rows.len() == 0 {
        Seq::empty()
    } else {
        let rest = targets_for_rows(rows.drop_last(), pname);
        if rows.last().project == pname {
            rest.push(rows.last().target)
        } else {
            rest
        }
    }
}

/// The target rows left after dropping every row of one project.
pub open spec fn targets_without_project(rows: Seq<TargetRowV>, pname: Seq<char>) -> Seq<
    TargetRowV,
>
    decreases rows.len(),
{
    if rows.len() == 0 {
        Seq::empty()
    } else {
        let rest = targets_without_project(rows.drop_last(), pname);
        if rows.last().project == pname {
            rest
        } else {
            rest.push(rows.last())
        }
    }
}

/// The target rows left after dropping the row keyed by one
/// (project, target name) pair, if present.
pub open spec fn targets_without_key(
    rows: Seq<TargetRowV>,
    pname: Seq<char>,
    tname: Seq<char>,
) -> Seq<TargetRowV>
    decreases rows.len(),
{
    if rows.len() == 0 {
        Seq::empty()
    } else {
        let rest = targets_without_key(rows.drop_last(), pname, tname);
        if rows.last().project == pname && rows.last().target.name == tname {
            rest
        } else {
            rest.push(rows.last())
        }
    }
}

/// The project rows left after dropping the row of one name, if
/// present.
pub open spec fn projects_without_name(rows: Seq<ProjectRowV>, name: Seq<char>) -> Seq<
    ProjectRowV,
>
    decreases rows.len(),
{
    if rows.len() == 0 {
        Seq::empty()
    } else {
        let rest = projects_without_name(rows.drop_last(), name);
        if rows.last().name == name {
            rest
        } else {
            rest.push(rows.last())
        }
    }
}

impl StoreV {
    /// The store with nothing in it.
    pub open spec fn empty() -> StoreV {
        StoreV { projects: Seq::empty(), targets: Seq::empty(), results: Seq::empty() }
    }

    /// Whether a project of this name is stored.
    pub open spec fn contains_project(self, name: Seq<char>) -> bool {
        exists|i: int| 0 <= i < self.projects.len() && self.projects[i].name == name
    }

    /// The source stored for a project (meaningful only when
    /// [`Self::contains_project`] holds).
    pub open spec fn project_source(self, name: Seq<char>) -> SourceV {
        let i = choose|i: int| 0 <= i < self.projects.len() && self.projects[i].name == name;
        self.projects[i].source
    }

    /// The stored artifacts of one project, in insertion order.
    pub open spec fn results_for(self, pname: Seq<char>) -> Seq<FuzzResultV> {
        results_for_rows(self.results, pname)
    }

    /// The stored targets of one project, in insertion order.
    pub open spec fn targets_for(self, pname: Seq<char>) -> Seq<TargetV> {
        targets_for_rows(self.targets, pname)
    }

    /// The full record of one project: its stored row joined with its
    /// stored targets (meaningful only when [`Self::contains_project`]
    /// holds).
    pub open spec fn project_record(self, name: Seq<char>) -> ProjectV {
        ProjectV { name, source: self.project_source(name), targets: self.targets_for(name) }
    }

    /// Every stored project joined with its targets, in insertion
    /// order of the project rows.
    pub open spec fn project_list(self) -> Seq<ProjectV> {
        Seq::new(self.projects.len(), |i: int| self.project_record(self.projects[i].name))
    }

    /// Appending one artifact row: the effect of a store-result
    /// request. Append-only: no other row moves.
    pub open spec fn store_result(self, pname: Seq<char>, result: FuzzResultV) -> StoreV {
        StoreV {
            projects: self.projects,
            targets: self.targets,
            results: self.results.push(ResultRowV { project: pname, result }),
        }
    }

    /// Insert-or-replace of one project row: the effect of an upsert.
    /// The project's targets and results are not touched; a replaced
    /// row moves to the end, as a keyed replace in the backing store
    /// does.
    pub open spec fn upsert_project(self, name: Seq<char>, source: SourceV) -> StoreV {
        StoreV {
            projects: projects_without_name(self.projects, name).push(
                ProjectRowV { name, source },
            ),
            targets: self.targets,
            results: self.results,
        }
    }

    /// Cascading delete of one project: its row, its targets and its
    /// results all leave in one logical operation.
    pub open spec fn remove_project(self, name: Seq<char>) -> StoreV {
        StoreV {
            projects: projects_without_name(self.projects, name),
            targets: targets_without_project(self.targets, name),
            results: results_without_project(self.results, name),
        }
    }

    /// Insert-or-replace of one target row under its
    /// (project, target name) key.
    pub open spec fn add_target(self, pname: Seq<char>, target: TargetV) -> StoreV {
        StoreV {
            projects: self.projects,
            targets: targets_without_key(self.targets, pname, target.name).push(
                TargetRowV { project: pname, target },
            ),
            results: self.results,
        }
    }

    /// Whether a target of this name is stored under this project.
    pub open spec fn contains_target(self, pname: Seq<char>, tname: Seq<char>) -> bool {
        contains_target_key(self.targets, pname, tname)
    }

    /// The target stored under one (project, target name) key
    /// (meaningful only when [`Self::contains_target`] holds).
    pub open spec fn target_record(self, pname: Seq<char>, tname: Seq<char>) -> TargetV {
        let i = choose|i: int|
            0 <= i < self.targets.len() && self.targets[i].project == pname
                && self.targets[i].target.name == tname;
        self.targets[i].target
    }

    /// Well-formedness: project names are unique, and so are
    /// (project, target name) keys.
    pub open spec fn wf(self) -> bool {
        &&& unique_project_names(self.projects)
        &&& unique_target_keys(self.targets)
    }

    /// The store content after one request: writes change the tables,
    /// reads leave them as they are.
    pub open spec fn apply_request(self, req: StorageRequestV) -> StoreV {
        match req {
            StorageRequestV::StoreResult { project_name, result } => self.store_result(
                project_name,
                result,
            ),
            StorageRequestV::StoreProject(p) => self.upsert_project(p.name, p.source),
            StorageRequestV::RemoveProject { name } => self.remove_project(name),
            StorageRequestV::AddProjectTarget { project_name, target } => self.add_target(
                project_name,
                target,
            ),
            StorageRequestV::LoadResults { .. } => self,
            StorageRequestV::LoadProjects => self,
            StorageRequestV::LoadProject { .. } => self,
            StorageRequestV::LoadTarget { .. } => self,
        }
    }

    /// The reply one request is answered with, read off the store
    /// content the request found.
    pub open spec fn answer(self, req: StorageRequestV) -> StorageResultV {
        match req {
            StorageRequestV::StoreResult { .. } => StorageResultV::Store,
            StorageRequestV::LoadResults { project } => StorageResultV::LoadResults(
                self.results_for(project),
            ),
            StorageRequestV::StoreProject(_) => StorageResultV::StoreProject,
            StorageRequestV::RemoveProject { .. } => StorageResultV::RemoveProject,
            StorageRequestV::LoadProjects => StorageResultV::LoadProjects(self.project_list()),
            StorageRequestV::LoadProject { name } => StorageResultV::LoadProject(
                if self.contains_project(name) {
                    Some(self.project_record(name))
                } else {
                    None
                },
            ),
            StorageRequestV::AddProjectTarget { .. } => StorageResultV::AddProjectTarget,
            StorageRequestV::LoadTarget { project_name, target_name } => {
                StorageResultV::LoadTarget(
                    if self.contains_target(project_name, target_name) {
                        Some(self.target_record(project_name, target_name))
                    } else {
                        None
                    },
                )
            },
        }
    }
}

/// Law: every request is answered with a reply of its own kind, so a
/// caller that matches on the reply of its request never meets another
/// variant.
pub proof fn lemma_answer_answers(s: StoreV, req: StorageRequestV)
    ensures
        answers(req, s.answer(req)),
{
}

/// A request for the storage actor, applied to the store in arrival
/// order.
pub enum StorageRequest {
    /// The given artifact should be stored for the given project.
    StoreResult {
        /// The project to which the artifact belongs.
        project_name: String,
        /// The artifact itself.
        result: FuzzResult,
    },
    /// Should load every artifact of the given project.
    LoadResults {
        /// The project name.
        project: String,
    },
    /// Should insert or replace the project's stored row.
    StoreProject(Project),
    /// Should delete the project and everything under it.
    RemoveProject {
        /// The name of the project to remove.
        name: String,
    },
    /// Should load every project with its full target list.
    LoadProjects,
    /// Should look up the project of the given name.
    LoadProject {
        /// The name of the project to load.
        name: String,
    },
    /// Should insert or replace one target under a project.
    AddProjectTarget {
        /// The project the target belongs to.
        project_name: String,
        /// The target itself.
        target: Target,
    },
    /// Should look up one target of a project.
    LoadTarget {
        /// The name of the project the target belongs to.
        project_name: String,
        /// The name of the target itself.
        target_name: String,
    },
}

/// Mathematical value of a [`StorageRequest`].
pub ghost enum StorageRequestV {
    StoreResult { project_name: Seq<char>, result: FuzzResultV },
    LoadResults { project: Seq<char> },
    StoreProject(ProjectV),
    RemoveProject { name: Seq<char> },
    LoadProjects,
    LoadProject { name: Seq<char> },
    AddProjectTarget { project_name: Seq<char>, target: TargetV },
    LoadTarget { project_name: Seq<char>, target_name: Seq<char> },
}

impl View for StorageRequest {
    type V = StorageRequestV;

    open spec fn view(&self) -> StorageRequestV {
        match self {
            StorageRequest::StoreResult { project_name, result } => StorageRequestV::StoreResult {
                project_name: project_name@,
                result: result@,
            },
            StorageRequest::LoadResults { project } => StorageRequestV::LoadResults {
                project: project@,
            },
            StorageRequest::StoreProject(p) => StorageRequestV::StoreProject(p@),
            StorageRequest::RemoveProject { name } => StorageRequestV::RemoveProject {
                name: name@,
            },
            StorageRequest::LoadProjects => StorageRequestV::LoadProjects,
            StorageRequest::LoadProject { name } => StorageRequestV::LoadProject { name: name@ },
            StorageRequest::AddProjectTarget { project_name, target } => {
                StorageRequestV::AddProjectTarget { project_name: project_name@, target: target@ }
            },
            StorageRequest::LoadTarget { project_name, target_name } => {
                StorageRequestV::LoadTarget {
                    project_name: project_name@,
                    target_name: target_name@,
                }
            },
        }
    }
}

/// The reply the storage actor sends back for one request.
pub enum StorageResult {
    /// An artifact was stored.
    Store,
    /// The artifacts of the asked-for project.
    LoadResults(Vec<FuzzResult>),
    /// A project row was stored.
    StoreProject,
    /// A project was removed.
    RemoveProject,
    /// Every project with its full target list.
    LoadProjects(Vec<Project>),
    /// The asked-for project, if stored.
    LoadProject(Option<Project>),
    /// A target row was stored.
    AddProjectTarget,
    /// The asked-for target, if stored.
    LoadTarget(Option<Target>),
}

/// Mathematical value of a [`StorageResult`].
pub ghost enum StorageResultV {
    Store,
    LoadResults(Seq<FuzzResultV>),
    StoreProject,
    RemoveProject,
    LoadProjects(Seq<ProjectV>),
    LoadProject(Option<ProjectV>),
    AddProjectTarget,
    LoadTarget(Option<TargetV>),
}

impl View for StorageResult {
    type V = StorageResultV;

    open spec fn view(&self) -> StorageResultV {
        match self {
            StorageResult::Store => StorageResultV::Store,
            StorageResult::LoadResults(rs) => StorageResultV::LoadResults(views_of(rs@)),
            StorageResult::StoreProject => StorageResultV::StoreProject,
            StorageResult::RemoveProject => StorageResultV::RemoveProject,
            StorageResult::LoadProjects(ps) => StorageResultV::LoadProjects(views_of(ps@)),
            StorageResult::LoadProject(p) => StorageResultV::LoadProject(
                match p {
                    Some(p) => Some(p@),
                    None => None,
                },
            ),
            StorageResult::AddProjectTarget => StorageResultV::AddProjectTarget,
            StorageResult::LoadTarget(t) => StorageResultV::LoadTarget(
                match t {
                    Some(t) => Some(t@),
                    None => None,
                },
            ),
        }
    }
}

/// Whether a reply is of the kind that answers a request: each load
/// request is answered with values of the matching kind, each write
/// request with the matching acknowledgement.
pub open spec fn answers(req: StorageRequestV, res: StorageResultV) -> bool {
    match req {
        StorageRequestV::StoreResult { .. } => res is Store,
        StorageRequestV::LoadResults { .. } => res is LoadResults,
        StorageRequestV::StoreProject(_) => res is StoreProject,
        StorageRequestV::RemoveProject { .. } => res is RemoveProject,
        StorageRequestV::LoadProjects => res is LoadProjects,
        StorageRequestV::LoadProject { .. } => res is LoadProject,
        StorageRequestV::AddProjectTarget { .. } => res is AddProjectTarget,
        StorageRequestV::LoadTarget { .. } => res is LoadTarget,
    }
}

/// No two project rows share a name.
pub open spec fn unique_project_names(rows: Seq<ProjectRowV>) -> bool {
    forall|i: int, j: int| 0 <= i < j < rows.len() ==> rows[i].name != rows[j].name
}

/// No two target rows share a (project, target name) key.
pub open spec fn unique_target_keys(rows: Seq<TargetRowV>) -> bool {
    forall|i: int, j: int|
        0 <= i < j < rows.len() ==> !(rows[i].project == rows[j].project && rows[i].target.name
            == rows[j].target.name)
}

/// Whether this exact row occurs in the projects table.
pub open spec fn row_in_projects(rows: Seq<ProjectRowV>, r: ProjectRowV) -> bool {
    exists|j: int| 0 <= j < rows.len() && rows[j] == r
}

/// Whether this exact row occurs in the targets table.
pub open spec fn row_in_targets(rows: Seq<TargetRowV>, r: TargetRowV) -> bool {
    exists|j: int| 0 <= j < rows.len() && rows[j] == r
}

/// Whether some target row carries this (project, target name) key.
pub open spec fn contains_target_key(
    rows: Seq<TargetRowV>,
    pname: Seq<char>,
    tname: Seq<char>,
) -> bool {
    exists|i: int|
        0 <= i < rows.len() && rows[i].project == pname && rows[i].target.name == tname
}

/// What dropping one project name leaves of the projects table: no row
/// of that name survives, every surviving row is one of the old rows,
/// name uniqueness is kept, and every other name is kept.
pub proof fn lemma_projects_without_name(rows: Seq<ProjectRowV>, name: Seq<char>)
    requires
        unique_project_names(rows),
    ensures
        unique_project_names(projects_without_name(rows, name)),
        forall|k: int|
            0 <= k < projects_without_name(rows, name).len() ==> (#[trigger] projects_without_name(
                rows,
                name,
            )[k]).name != name,
        forall|k: int|
            0 <= k < projects_without_name(rows, name).len() ==> row_in_projects(
                rows,
                #[trigger] projects_without_name(rows, name)[k],
            ),
    decreases rows.len(),
{
    if rows.len() > 0 {
        let dl = rows.drop_last();
        let f = projects_without_name(rows, name);
        let fd = projects_without_name(dl, name);
        lemma_projects_without_name(dl, name);
        assert forall|k: int| 0 <= k < f.len() implies row_in_projects(rows, #[trigger] f[k]) by {
            if k < fd.len() {
                let j = choose|j: int| 0 <= j < dl.len() && dl[j] == fd[k];
                assert(rows[j] == f[k]);
            } else {
                assert(rows[rows.len() - 1] == f[k]);
            }
        }
        if rows.last().name != name {
            assert forall|k: int| 0 <= k < fd.len() implies fd[k].name != rows.last().name by {
                let j = choose|j: int| 0 <= j < dl.len() && dl[j] == fd[k];
                assert(rows[j].name != rows[rows.len() - 1].name);
            }
        }
    }
}

/// What dropping one (project, target name) key leaves of the targets
/// table: no row of that key survives, every surviving row is one of
/// the old rows, and key uniqueness is kept.
pub proof fn lemma_targets_without_key(rows: Seq<TargetRowV>, pname: Seq<char>, tname: Seq<char>)
    requires
        unique_target_keys(rows),
    ensures
        unique_target_keys(targets_without_key(rows, pname, tname)),
        forall|k: int|
            0 <= k < targets_without_key(rows, pname, tname).len() ==> !((
            #[trigger] targets_without_key(rows, pname, tname)[k]).project == pname
                && targets_without_key(rows, pname, tname)[k].target.name == tname),
        forall|k: int|
            0 <= k < targets_without_key(rows, pname, tname).len() ==> row_in_targets(
                rows,
                #[trigger] targets_without_key(rows, pname, tname)[k],
            ),
    decreases rows.len(),
{
    if rows.len() > 0 {
        let dl = rows.drop_last();
        let f = targets_without_key(rows, pname, tname);
        let fd = targets_without_key(dl, pname, tname);
        lemma_targets_without_key(dl, pname, tname);
        assert forall|k: int| 0 <= k < f.len() implies row_in_targets(rows, #[trigger] f[k]) by {
            if k < fd.len() {
                let j = choose|j: int| 0 <= j < dl.len() && dl[j] == fd[k];
                assert(rows[j] == f[k]);
            } else {
                assert(rows[rows.len() - 1] == f[k]);
            }
        }
        if !(rows.last().project == pname && rows.last().target.name == tname) {
            assert forall|k: int| 0 <= k < fd.len() implies !(fd[k].project
                == rows.last().project && fd[k].target.name == rows.last().target.name) by {
                let j = choose|j: int| 0 <= j < dl.len() && dl[j] == fd[k];
                assert(!(rows[j].project == rows[rows.len() - 1].project && rows[j].target.name
                    == rows[rows.len() - 1].target.name));
            }
        }
    }
}

/// What a cascading project delete leaves of the targets table: no row
/// of the project survives, every surviving row is one of the old
/// rows, and key uniqueness is kept.
pub proof fn lemma_targets_without_project(rows: Seq<TargetRowV>, pname: Seq<char>)
    requires
        unique_target_keys(rows),
    ensures
        unique_target_keys(targets_without_project(rows, pname)),
        forall|k: int|
            0 <= k < targets_without_project(rows, pname).len() ==> (
            #[trigger] targets_without_project(rows, pname)[k]).project != pname,
        forall|k: int|
            0 <= k < targets_without_project(rows, pname).len() ==> row_in_targets(
                rows,
                #[trigger] targets_without_project(rows, pname)[k],
            ),
    decreases rows.len(),
{
    if rows.len() > 0 {
        let dl = rows.drop_last();
        let f = targets_without_project(rows, pname);
        let fd = targets_without_project(dl, pname);
        lemma_targets_without_project(dl, pname);
        assert forall|k: int| 0 <= k < f.len() implies row_in_targets(rows, #[trigger] f[k]) by {
            if k < fd.len() {
                let j = choose|j: int| 0 <= j < dl.len() && dl[j] == fd[k];
                assert(rows[j] == f[k]);
            } else {
                assert(rows[rows.len() - 1] == f[k]);
            }
        }
        if rows.last().project != pname {
            assert forall|k: int| 0 <= k < fd.len() implies !(fd[k].project
                == rows.last().project && fd[k].target.name == rows.last().target.name) by {
                let j = choose|j: int| 0 <= j < dl.len() && dl[j] == fd[k];
                assert(!(rows[j].project == rows[rows.len() - 1].project && rows[j].target.name
                    == rows[rows.len() - 1].target.name));
            }
        }
    }
}

/// What a cascading project delete leaves of the results table: the
/// deleted project keeps no artifacts, and every other project keeps
/// exactly the artifacts it had, in order.
pub proof fn lemma_results_without_project(rows: Seq<ResultRowV>, pname: Seq<char>, q: Seq<char>)
    ensures
        q == pname ==> results_for_rows(results_without_project(rows, pname), q) =~= Seq::<
            FuzzResultV,
        >::empty(),
        q != pname ==> results_for_rows(results_without_project(rows, pname), q)
            =~= results_for_rows(rows, q),
    decreases rows.len(),
{
    if rows.len() > 0 {
        let dl = rows.drop_last();
        lemma_results_without_project(dl, pname, q);
        if rows.last().project == pname {
            assert(results_without_project(rows, pname) == results_without_project(dl, pname));
        } else {
            assert(results_without_project(rows, pname) == results_without_project(
                dl,
                pname,
            ).push(rows.last()));
            assert(results_without_project(rows, pname).drop_last() =~= results_without_project(
                dl,
                pname,
            ));
        }
    }
}

impl Clone for ProjectRow {
    fn clone(&self) -> (r: Self)
        ensures
            r@ == self@,
    {
        ProjectRow { name: self.name.clone(), source: self.source.clone() }
    }
}

impl Clone for TargetRow {
    fn clone(&self) -> (r: Self)
        ensures
            r@ == self@,
    {
        TargetRow { project: self.project.clone(), target: self.target.clone() }
    }
}

impl Clone for ResultRow {
    fn clone(&self) -> (r: Self)
        ensures
            r@ == self@,
    {
        ResultRow { project: self.project.clone(), result: self.result.clone() }
    }
}

/// The project rows with one name dropped, rebuilt in order.
fn filter_projects(rows: &Vec<ProjectRow>, name: &String) -> (r: Vec<ProjectRow>)
    ensures
        views_of(r@) == projects_without_name(views_of(rows@), name@),
{
    let mut r: Vec<ProjectRow> = Vec::new();
    let mut i: usize = 0;
    while i < rows.len()
        invariant
            i <= rows@.len(),
            views_of(r@) =~= projects_without_name(views_of(rows@).subrange(0, i as int), name@),
        decreases rows@.len() - i,
    {
        proof {
            assert(views_of(rows@).subrange(0, i as int + 1).drop_last() =~= views_of(
                rows@,
            ).subrange(0, i as int));
        }
        if !rows[i].name.eq(name) {
            r.push(rows[i].clone());
        }
        i = i + 1;
        proof {
            assert(views_of(r@) =~= projects_without_name(
                views_of(rows@).subrange(0, i as int),
                name@,
            ));
        }
    }
    proof {
        assert(views_of(rows@).subrange(0, rows@.len() as int) =~= views_of(rows@));
    }
    r
}

/// The target rows with one project dropped, rebuilt in order.
fn filter_targets_by_project(rows: &Vec<TargetRow>, pname: &String) -> (r: Vec<TargetRow>)
    ensures
        views_of(r@) == targets_without_project(views_of(rows@), pname@),
{
    let mut r: Vec<TargetRow> = Vec::new();
    let mut i: usize = 0;
    while i < rows.len()
        invariant
            i <= rows@.len(),
            views_of(r@) =~= targets_without_project(
                views_of(rows@).subrange(0, i as int),
                pname@,
            ),
        decreases rows@.len() - i,
    {
        proof {
            assert(views_of(rows@).subrange(0, i as int + 1).drop_last() =~= views_of(
                rows@,
            ).subrange(0, i as int));
        }
        if !rows[i].project.eq(pname) {
            r.push(rows[i].clone());
        }
        i = i + 1;
        proof {
            assert(views_of(r@) =~= targets_without_project(
                views_of(rows@).subrange(0, i as int),
                pname@,
            ));
        }
    }
    proof {
        assert(views_of(rows@).subrange(0, rows@.len() as int) =~= views_of(rows@));
    }
    r
}

/// The target rows with one (project, target name) key dropped,
/// rebuilt in order.
fn filter_targets_by_key(rows: &Vec<TargetRow>, pname: &String, tname: &String) -> (r: Vec<
    TargetRow,
>)
    ensures
        views_of(r@) == targets_without_key(views_of(rows@), pname@, tname@),
{
    let mut r: Vec<TargetRow> = Vec::new();
    let mut i: usize = 0;
    while i < rows.len()
        invariant
            i <= rows@.len(),
            views_of(r@) =~= targets_without_key(
                views_of(rows@).subrange(0, i as int),
                pname@,
                tname@,
            ),
        decreases rows@.len() - i,
    {
        proof {
            assert(views_of(rows@).subrange(0, i as int + 1).drop_last() =~= views_of(
                rows@,
            ).subrange(0, i as int));
        }
        if !(rows[i].project.eq(pname) && rows[i].target.name.eq(tname)) {
            r.push(rows[i].clone());
        }
        i = i + 1;
        proof {
            assert(views_of(r@) =~= targets_without_key(
                views_of(rows@).subrange(0, i as int),
                pname@,
                tname@,
            ));
        }
    }
    proof {
        assert(views_of(rows@).subrange(0, rows@.len() as int) =~= views_of(rows@));
    }
    r
}

/// The result rows with one project dropped, rebuilt in order.
fn filter_results_by_project(rows: &Vec<ResultRow>, pname: &String) -> (r: Vec<ResultRow>)
    ensures
        views_of(r@) == results_without_project(views_of(rows@), pname@),
{
    let mut r: Vec<ResultRow> = Vec::new();
    let mut i: usize = 0;
    while i < rows.len()
        invariant
            i <= rows@.len(),
            views_of(r@) =~= results_without_project(
                views_of(rows@).subrange(0, i as int),
                pname@,
            ),
        decreases rows@.len() - i,
    {
        proof {
            assert(views_of(rows@).subrange(0, i as int + 1).drop_last() =~= views_of(
                rows@,
            ).subrange(0, i as int));
        }
        if !rows[i].project.eq(pname) {
            r.push(rows[i].clone());
        }
        i = i + 1;
        proof {
            assert(views_of(r@) =~= results_without_project(
                views_of(rows@).subrange(0, i as int),
                pname@,
            ));
        }
    }
    proof {
        assert(views_of(rows@).subrange(0, rows@.len() as int) =~= views_of(rows@));
    }
    r
}

/// The logical content of the persistent store, owned by the storage
/// actor: projects, targets and results, each in insertion order.
pub struct Store {
    projects: Vec<ProjectRow>,
    targets: Vec<TargetRow>,
    results: Vec<ResultRow>,
}

impl View for Store {
    type V = StoreV;

    closed spec fn view(&self) -> StoreV {
        StoreV {
            projects: views_of(self.projects@),
            targets: views_of(self.targets@),
            results: views_of(self.results@),
        }
    }
}

impl Store {
    /// Well-formedness of the store content.
    pub open spec fn wf(self) -> bool {
        self@.wf()
    }

    /// An empty store.
    pub fn new() -> (r: Store)
        ensures
            r.wf(),
            r@ == StoreV::empty(),
    {
        let r = Store { projects: Vec::new(), targets: Vec::new(), results: Vec::new() };
        proof {
            assert(r@.projects =~= StoreV::empty().projects);
            assert(r@.targets =~= StoreV::empty().targets);
            assert(r@.results =~= StoreV::empty().results);
        }
        r
    }

    /// Persists one artifact for a project by appending a result row.
    pub fn store_result(&mut self, project: String, data: FuzzResult)
        requires
            old(self).wf(),
        ensures
            final(self).wf(),
            final(self)@ == old(self)@.store_result(project@, data@),
    {
        let ghost pre = self@;
        let ghost row_v = ResultRowV { project: project@, result: data@ };
        self.results.push(ResultRow { project, result: data });
        proof {
            assert(self@.results =~= pre.results.push(row_v));
            assert(self@.projects =~= pre.projects);
            assert(self@.targets =~= pre.targets);
        }
    }

    /// Returns every artifact stored for a project, in insertion
    /// order.
    pub fn load_results(&self, project: &String) -> (r: Vec<FuzzResult>)
        ensures
            views_of(r@) == self@.results_for(project@),
    {
        let mut r: Vec<FuzzResult> = Vec::new();
        let mut i: usize = 0;
        while i < self.results.len()
            invariant
                i <= self.results@.len(),
                views_of(r@) =~= results_for_rows(self@.results.subrange(0, i as int), project@),
            decreases self.results@.len() - i,
        {
            let ghost sub_pre = self@.results.subrange(0, i as int);
            let ghost sub_post = self@.results.subrange(0, i as int + 1);
            proof {
                assert(sub_post.drop_last() =~= sub_pre);
                assert(sub_post.last() == self@.results[i as int]);
            }
            if self.results[i].project.eq(project) {
                r.push(self.results[i].result.clone());
            }
            i = i + 1;
            proof {
                assert(views_of(r@) =~= results_for_rows(
                    self@.results.subrange(0, i as int),
                    project@,
                ));
            }
        }
        proof {
            assert(self@.results.subrange(0, self.results@.len() as int) =~= self@.results);
        }
        r
    }

    /// Inserts or replaces one project row. Only the project's name
    /// and source are stored: its target list is owned by the targets
    /// table and is not touched here.
    pub fn update_project(&mut self, project: Project)
        requires
            old(self).wf(),
        ensures
            final(self).wf(),
            final(self)@ == old(self)@.upsert_project(project@.name, project@.source),
    {
        let ghost pre = self@;
        let Project { name, source, targets: _ } = project;
        let ghost name_v = name@;
        let ghost source_v = source@;
        self.projects = filter_projects(&self.projects, &name);
        self.projects.push(ProjectRow { name, source });
        proof {
            lemma_projects_without_name(pre.projects, name_v);
            let f = projects_without_name(pre.projects, name_v);
            assert(self@.projects =~= f.push(ProjectRowV { name: name_v, source: source_v }));
            assert(unique_project_names(self@.projects)) by {
                assert(forall|k: int| 0 <= k < f.len() ==> self@.projects[k] == f[k]);
            }
            assert(self@.targets =~= pre.targets);
            assert(self@.results =~= pre.results);
        }
    }

    /// Removes one project and cascades: its row, its targets and its
    /// results all leave in the same logical operation.
    pub fn remove_project(&mut self, name: &String)
        requires
            old(self).wf(),
        ensures
            final(self).wf(),
            final(self)@ == old(self)@.remove_project(name@),
    {
        let ghost pre = self@;
        self.projects = filter_projects(&self.projects, name);
        self.targets = filter_targets_by_project(&self.targets, name);
        self.results = filter_results_by_project(&self.results, name);
        proof {
            lemma_projects_without_name(pre.projects, name@);
            lemma_targets_without_project(pre.targets, name@);
            assert(self@.projects =~= pre.remove_project(name@).projects);
            assert(self@.targets =~= pre.remove_project(name@).targets);
            assert(self@.results =~= pre.remove_project(name@).results);
        }
    }

    /// Inserts or replaces one target row under its
    /// (project, target name) key.
    pub fn add_project_target(&mut self, pname: String, target: Target)
        requires
            old(self).wf(),
        ensures
            final(self).wf(),
            final(self)@ == old(self)@.add_target(pname@, target@),
    {
        let ghost pre = self@;
        let ghost pname_v = pname@;
        let ghost target_v = target@;
        self.targets = filter_targets_by_key(&self.targets, &pname, &target.name);
        self.targets.push(TargetRow { project: pname, target });
        proof {
            lemma_targets_without_key(pre.targets, pname_v, target_v.name);
            let f = targets_without_key(pre.targets, pname_v, target_v.name);
            assert(self@.targets =~= f.push(TargetRowV { project: pname_v, target: target_v }));
            assert(unique_target_keys(self@.targets)) by {
                assert(forall|k: int| 0 <= k < f.len() ==> self@.targets[k] == f[k]);
            }
            assert(self@.projects =~= pre.projects);
            assert(self@.results =~= pre.results);
        }
    }

    /// Returns the stored targets of one project, in insertion order.
    fn targets_of(&self, pname: &String) -> (r: Vec<Target>)
        ensures
            views_of(r@) == self@.targets_for(pname@),
    {
        let mut r: Vec<Target> = Vec::new();
        let mut i: usize = 0;
        while i < self.targets.len()
            invariant
                i <= self.targets@.len(),
                views_of(r@) =~= targets_for_rows(self@.targets.subrange(0, i as int), pname@),
            decreases self.targets@.len() - i,
        {
            proof {
                assert(self@.targets.subrange(0, i as int + 1).drop_last() =~= self@
                    .targets.subrange(0, i as int));
            }
            if self.targets[i].project.eq(pname) {
                r.push(self.targets[i].target.clone());
            }
            i = i + 1;
            proof {
                assert(views_of(r@) =~= targets_for_rows(
                    self@.targets.subrange(0, i as int),
                    pname@,
                ));
            }
        }
        proof {
            assert(self@.targets.subrange(0, self.targets@.len() as int) =~= self@.targets);
        }
        r
    }

    /// The full record of the project stored at one row index.
    fn record_at(&self, i: usize) -> (r: Project)
        requires
            self.wf(),
            i < self@.projects.len(),
        ensures
            r@ == self@.project_record(self@.projects[i as int].name),
    {
        let targets = self.targets_of(&self.projects[i].name);
        let r = Project {
            name: self.projects[i].name.clone(),
            source: self.projects[i].source.clone(),
            targets,
        };
        proof {
            let name_v = self@.projects[i as int].name;
            let ci = choose|ci: int|
                0 <= ci < self@.projects.len() && self@.projects[ci].name == name_v;
            assert(self@.contains_project(name_v));
            if ci < i as int {
                assert(self@.projects[ci].name != self@.projects[i as int].name);
            } else if (i as int) < ci {
                assert(self@.projects[i as int].name != self@.projects[ci].name);
            }
            assert(r@.targets =~= self@.targets_for(name_v));
        }
        r
    }

    /// Returns every stored project joined with its targets, in
    /// insertion order of the project rows.
    pub fn load_projects(&self) -> (r: Vec<Project>)
        requires
            self.wf(),
        ensures
            views_of(r@) == self@.project_list(),
    {
        let mut r: Vec<Project> = Vec::new();
        let mut i: usize = 0;
        while i < self.projects.len()
            invariant
                self.wf(),
                i <= self.projects@.len(),
                r@.len() == i,
                forall|j: int| 0 <= j < i ==> (#[trigger] r@[j])@ == self@.project_list()[j],
            decreases self.projects@.len() - i,
        {
            r.push(self.record_at(i));
            i = i + 1;
        }
        proof {
            assert(views_of(r@) =~= self@.project_list());
        }
        r
    }

    /// Looks up one project by name: its row joined with its targets,
    /// or `None` when no project of that name is stored.
    pub fn load_project(&self, name: &String) -> (r: Option<Project>)
        requires
            self.wf(),
        ensures
            match r {
                Some(p) => self@.contains_project(name@) && p@ == self@.project_record(name@),
                None => !self@.contains_project(name@),
            },
    {
        let mut i: usize = 0;
        while i < self.projects.len()
            invariant
                self.wf(),
                i <= self.projects@.len(),
                forall|j: int| 0 <= j < i ==> self@.projects[j].name != name@,
            decreases self.projects@.len() - i,
        {
            if self.projects[i].name.eq(name) {
                return Some(self.record_at(i));
            }
            i = i + 1;
        }
        None
    }

    /// Looks up one target by its (project, target name) key.
    pub fn load_target(&self, pname: &String, tname: &String) -> (r: Option<Target>)
        requires
            self.wf(),
        ensures
            match r {
                Some(t) => self@.contains_target(pname@, tname@) && t@ == self@.target_record(
                    pname@,
                    tname@,
                ),
                None => !self@.contains_target(pname@, tname@),
            },
    {
        let mut i: usize = 0;
        while i < self.targets.len()
            invariant
                self.wf(),
                i <= self.targets@.len(),
                forall|j: int|
                    0 <= j < i ==> !(self@.targets[j].project == pname@
                        && self@.targets[j].target.name == tname@),
            decreases self.targets@.len() - i,
        {
            if self.targets[i].project.eq(pname) && self.targets[i].target.name.eq(tname) {
                let t = self.targets[i].target.clone();
                proof {
                    let ci = choose|ci: int|
                        0 <= ci < self@.targets.len() && self@.targets[ci].project == pname@
                            && self@.targets[ci].target.name == tname@;
                    if ci < i as int {
                        assert(!(self@.targets[ci].project == self@.targets[i as int].project
                            && self@.targets[ci].target.name == self@.targets[
                            i as int
                        ].target.name));
                    } else if (i as int) < ci {
                        assert(!(self@.targets[i as int].project == self@.targets[ci].project
                            && self@.targets[i as int].target.name
                            == self@.targets[ci].target.name));
                    }
                }
                return Some(t);
            }
            i = i + 1;
        }
        None
    }

    /// Applies one request to the store and builds the reply, exactly
    /// as [`StoreV::apply_request`] and [`StoreV::answer`] say. This
    /// is the whole dispatch the storage actor performs per message;
    /// the actor loop around it only receives requests and sends the
    /// replies back.
    pub fn handle(&mut self, req: StorageRequest) -> (r: StorageResult)
        requires
            old(self).wf(),
        ensures
            final(self).wf(),
            final(self)@ == old(self)@.apply_request(req@),
            r@ == old(self)@.answer(req@),
    {
        match req {
            StorageRequest::StoreResult { project_name, result } => {
                self.store_result(project_name, result);
                StorageResult::Store
            },
            StorageRequest::LoadResults { project } => {
                StorageResult::LoadResults(self.load_results(&project))
            },
            StorageRequest::StoreProject(p) => {
                self.update_project(p);
                StorageResult::StoreProject
            },
            StorageRequest::RemoveProject { name } => {
                self.remove_project(&name);
                StorageResult::RemoveProject
            },
            StorageRequest::LoadProjects => StorageResult::LoadProjects(self.load_projects()),
            StorageRequest::LoadProject { name } => {
                StorageResult::LoadProject(self.load_project(&name))
            },
            StorageRequest::AddProjectTarget { project_name, target } => {
                self.add_project_target(project_name, target);
                StorageResult::AddProjectTarget
            },
            StorageRequest::LoadTarget { project_name, target_name } => {
                StorageResult::LoadTarget(self.load_target(&project_name, &target_name))
            },
        }
    }
}

/// A batch of store-result operations applied in order, each one
/// appending one artifact row.
pub open spec fn apply_store_results(s: StoreV, ops: Seq<ResultRowV>) -> StoreV
    decreases ops.len(),
{
    if ops.len() == 0 {
        s
    } else {
        apply_store_results(s, ops.drop_last()).store_result(
            ops.last().project,
            ops.last().result,
        )
    }
}

/// Law: a batch of store-result calls loses nothing, invents nothing
/// and reorders nothing. After any sequence of stores, the artifacts
/// a project holds are exactly those it held before followed by
/// exactly the ones stored for it, in order; so, starting from any
/// store, loading a project's results returns exactly what was stored
/// for it.
pub proof fn lemma_store_results_exact(s: StoreV, ops: Seq<ResultRowV>, p: Seq<char>)
    ensures
        apply_store_results(s, ops).results_for(p) == s.results_for(p) + results_for_rows(ops, p),
    decreases ops.len(),
{
    if ops.len() == 0 {
        assert(s.results_for(p) + results_for_rows(ops, p) =~= s.results_for(p));
    } else {
        let dl = ops.drop_last();
        lemma_store_results_exact(s, dl, p);
        let s1 = apply_store_results(s, dl);
        let s2 = apply_store_results(s, ops);
        assert(s2.results.drop_last() =~= s1.results);
        if ops.last().project == p {
            assert(s2.results_for(p) =~= s.results_for(p) + results_for_rows(ops, p));
        } else {
            assert(s2.results_for(p) =~= s.results_for(p) + results_for_rows(ops, p));
        }
    }
}

/// Law: a batch of store-result calls leaves projects and targets
/// alone, and preserves well-formedness.
pub proof fn lemma_store_results_wf(s: StoreV, ops: Seq<ResultRowV>)
    ensures
        apply_store_results(s, ops).projects == s.projects,
        apply_store_results(s, ops).targets == s.targets,
        s.wf() ==> apply_store_results(s, ops).wf(),
    decreases ops.len(),
{
    if ops.len() > 0 {
        lemma_store_results_wf(s, ops.drop_last());
    }
}

/// Law: removing a project removes it for good. Afterwards no project
/// of that name is stored, its results read back empty, the project
/// list shows no entry of that name — and every other project keeps
/// exactly the artifacts it had.
pub proof fn lemma_remove_project_clears(s: StoreV, name: Seq<char>, other: Seq<char>)
    requires
        s.wf(),
    ensures
        s.remove_project(name).wf(),
        !s.remove_project(name).contains_project(name),
        s.remove_project(name).results_for(name) == Seq::<FuzzResultV>::empty(),
        forall|k: int|
            0 <= k < s.remove_project(name).project_list().len() ==> (
            #[trigger] s.remove_project(name).project_list()[k]).name != name,
        other != name ==> s.remove_project(name).results_for(other) == s.results_for(other),
{
    lemma_projects_without_name(s.projects, name);
    lemma_targets_without_project(s.targets, name);
    lemma_results_without_project(s.results, name, name);
    lemma_results_without_project(s.results, name, other);
    let s2 = s.remove_project(name);
    assert(s2.results_for(name) =~= Seq::<FuzzResultV>::empty());
    if s2.contains_project(name) {
        let i = choose|i: int| 0 <= i < s2.projects.len() && s2.projects[i].name == name;
        assert(s2.projects[i].name != name);
    }
}

/// Whether some target row of a project carries this exact target.
pub open spec fn target_in_rows(rows: Seq<TargetRowV>, pname: Seq<char>, t: TargetV) -> bool {
    exists|j: int| 0 <= j < rows.len() && rows[j].project == pname && rows[j].target == t
}

/// Every entry of a project's target list comes from a row of that
/// project.
pub proof fn lemma_targets_for_membership(rows: Seq<TargetRowV>, pname: Seq<char>)
    ensures
        forall|k: int|
            0 <= k < targets_for_rows(rows, pname).len() ==> target_in_rows(
                rows,
                pname,
                #[trigger] targets_for_rows(rows, pname)[k],
            ),
    decreases rows.len(),
{
    if rows.len() > 0 {
        let dl = rows.drop_last();
        let f = targets_for_rows(rows, pname);
        let fd = targets_for_rows(dl, pname);
        lemma_targets_for_membership(dl, pname);
        assert forall|k: int| 0 <= k < f.len() implies target_in_rows(rows, pname, #[trigger] f[k])
            by {
            if k < fd.len() {
                let j = choose|j: int|
                    0 <= j < dl.len() && dl[j].project == pname && dl[j].target == fd[k];
                assert(rows[j].project == pname && rows[j].target == f[k]);
            } else {
                assert(rows[rows.len() - 1].project == pname && rows[rows.len() - 1].target
                    == f[k]);
            }
        }
    }
}

/// Law: adding a target stores it exactly once, whatever was stored
/// under its name before. The project's target list afterwards ends
/// with the added target, and no other entry carries its name: the
/// second add of a name replaces the first, it does not double it.
pub proof fn lemma_add_target_once(s: StoreV, pname: Seq<char>, t: TargetV)
    requires
        s.wf(),
    ensures
        s.add_target(pname, t).wf(),
        s.add_target(pname, t).targets_for(pname).len() > 0,
        s.add_target(pname, t).targets_for(pname).last() == t,
        forall|k: int|
            0 <= k < s.add_target(pname, t).targets_for(pname).len() - 1 ==> (#[trigger] s
                .add_target(pname, t)
                .targets_for(pname)[k]).name != t.name,
{
    lemma_targets_without_key(s.targets, pname, t.name);
    let f = targets_without_key(s.targets, pname, t.name);
    let s2 = s.add_target(pname, t);
    assert(unique_target_keys(s2.targets)) by {
        assert(forall|k: int| 0 <= k < f.len() ==> s2.targets[k] == f[k]);
    }
    assert(s2.targets.drop_last() =~= f);
    lemma_targets_for_membership(f, pname);
    assert(s2.targets_for(pname) == targets_for_rows(f, pname).push(t));
    assert forall|k: int| 0 <= k < s2.targets_for(pname).len() - 1 implies (#[trigger] s2
        .targets_for(pname)[k]).name != t.name by {
        assert(target_in_rows(f, pname, targets_for_rows(f, pname)[k]));
        let j = choose|j: int|
            0 <= j < f.len() && f[j].project == pname && f[j].target == targets_for_rows(
                f,
                pname,
            )[k];
        assert(!(f[j].project == pname && f[j].target.name == t.name));
    }
}

/// Law: adding the same target name twice, with different content,
/// leaves the project with that name present exactly once, holding
/// the content of the second add.
pub proof fn lemma_add_target_replaces(s: StoreV, pname: Seq<char>, t1: TargetV, t2: TargetV)
    requires
        s.wf(),
        t1.name == t2.name,
    ensures
        ({
            let ts = s.add_target(pname, t1).add_target(pname, t2).targets_for(pname);
            &&& ts.len() > 0
            &&& ts.last() == t2
            &&& forall|k: int| 0 <= k < ts.len() - 1 ==> (#[trigger] ts[k]).name != t2.name
        }),
{
    lemma_add_target_once(s, pname, t1);
    lemma_add_target_once(s.add_target(pname, t1), pname, t2);
}

} // verus!
