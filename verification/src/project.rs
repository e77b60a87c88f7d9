//! The persistent configuration data model: a project, where its code
//! lives, and the fuzzing targets configured for it.

use vstd::prelude::*;

verus! {

/// Where a project's code lives.
#[derive(Debug, PartialEq, Eq)]
pub enum Source {
    /// A git repository, identified by its clone URL.
    Git {
        /// The repository link.
        repo: String,
    },
}

/// Mathematical value of a [`Source`].
pub ghost enum SourceV {
    Git { repo: Seq<char> },
}

impl View for Source {
    type V = SourceV;

    open spec fn view(&self) -> SourceV {
        match self {
            Source::Git { repo } => SourceV::Git { repo: repo@ },
        }
    }
}

impl Clone for Source {
    fn clone(&self) -> (r: Self)
        ensures
            r@ == self@,
    {
        match self {
            Source::Git { repo } => Source::Git { repo: repo.clone() },
        }
    }
}

/// How a target is fuzzed: the concrete engine and the identifier it
/// needs.
#[derive(Debug, PartialEq, Eq)]
pub enum RunTarget {
    /// A `cargo fuzz` target.
    CargoFuzz {
        /// The name of the fuzzing target, as the fuzz tool knows it.
        name: String,
    },
}

/// Mathematical value of a [`RunTarget`].
pub ghost enum RunTargetV {
    CargoFuzz { name: Seq<char> },
}

impl View for RunTarget {
    type V = RunTargetV;

    open spec fn view(&self) -> RunTargetV {
        match self {
            RunTarget::CargoFuzz { name } => RunTargetV::CargoFuzz { name: name@ },
        }
    }
}

impl Clone for RunTarget {
    fn clone(&self) -> (r: Self)
        ensures
            r@ == self@,
    {
        match self {
            RunTarget::CargoFuzz { name } => RunTarget::CargoFuzz { name: name.clone() },
        }
    }
}

/// A single named fuzzing entry point within a project's source tree.
#[derive(Debug, PartialEq, Eq)]
pub struct Target {
    /// The name of the target, unique within its project.
    pub name: String,
    /// The folder inside the checked-out source in which the target
    /// lives.
    pub folder: String,
    /// The concrete target to run.
    pub target: RunTarget,
    /// Whether the target should be executed in a loop or only once.
    pub repeating: bool,
}

/// Mathematical value of a [`Target`].
pub ghost struct TargetV {
    pub name: Seq<char>,
    pub folder: Seq<char>,
    pub target: RunTargetV,
    pub repeating: bool,
}

impl View for Target {
    type V = TargetV;

    open spec fn view(&self) -> TargetV {
        TargetV {
            name: self.name@,
            folder: self.folder@,
            target: self.target@,
            repeating: self.repeating,
        }
    }
}

impl Clone for Target {
    fn clone(&self) -> (r: Self)
        ensures
            r@ == self@,
    {
        Target {
            name: self.name.clone(),
            folder: self.folder.clone(),
            target: self.target.clone(),
            repeating: self.repeating,
        }
    }
}

/// A project: a unique name, the source of its code, and its targets.
#[derive(Debug, PartialEq, Eq)]
pub struct Project {
    /// The name of the project, the unique key under which it is
    /// stored.
    pub name: String,
    /// The source of the project's code.
    pub source: Source,
    /// The fuzzing targets of the project.
    pub targets: Vec<Target>,
}

/// Mathematical value of a [`Project`].
pub ghost struct ProjectV {
    pub name: Seq<char>,
    pub source: SourceV,
    pub targets: Seq<TargetV>,
}

impl View for Project {
    type V = ProjectV;

    open spec fn view(&self) -> ProjectV {
        ProjectV {
            name: self.name@,
            source: self.source@,
            targets: Seq::new(self.targets@.len(), |i: int| self.targets@[i]@),
        }
    }
}

impl Clone for Project {
    fn clone(&self) -> (r: Self)
        ensures
            r@ == self@,
    {
        let mut targets: Vec<Target> = Vec::new();
        let mut i: usize = 0;
        while i < self.targets.len()
            invariant
                i <= self.targets.len(),
                targets@.len() == i,
                forall|j: int| 0 <= j < i ==> targets@[j]@ == self.targets@[j]@,
            decreases self.targets.len() - i,
        {
            targets.push(self.targets[i].clone());
            i = i + 1;
        }
        let r = Project { name: self.name.clone(), source: self.source.clone(), targets };
        proof {
            assert(r@.targets =~= self@.targets);
        }
        r
    }
}

} // verus!
