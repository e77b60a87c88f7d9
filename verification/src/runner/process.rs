//! The process-based runner's configuration: where workspaces live
//! and how the paths of one run are formed.
//!
//! The paths are plain strings with `/` separators, exactly as the
//! contracts spell them out; the caller hands them to the
//! source-control client, the fuzz tool and the filesystem.

use vstd::prelude::*;

verus! {

use vstd::string::StringExecFns;

/// Runs fuzz targets as supervised child processes, each in a fresh
/// workspace under one base folder.
pub struct ProcessRunner {
    subfolder: String,
}

impl View for ProcessRunner {
    type V = Seq<char>;

    closed spec fn view(&self) -> Seq<char> {
        self.subfolder@
    }
}

impl ProcessRunner {
    /// A runner keeping its workspaces under the given base folder.
    pub fn new(path: String) -> (r: Self)
        ensures
            r@ == path@,
    {
        ProcessRunner { subfolder: path }
    }

    /// The workspace path of one job: the base folder, the project
    /// name and the job name, joined by `/`. Scoping the checkout by
    /// both names keeps two jobs out of each other's trees.
    pub fn workspace_path(&self, pname: &str, name: &str) -> (r: String)
        ensures
            r@ == self@ + "/"@ + pname@ + "/"@ + name@,
    {
        let mut r = self.subfolder.clone();
        r.append("/");
        r.append(pname);
        r.append("/");
        r.append(name);
        r
    }
}

/// The directory a job works in: its target's folder inside the
/// checked-out tree.
pub fn work_dir(workspace: &str, folder: &str) -> (r: String)
    ensures
        r@ == workspace@ + "/"@ + folder@,
{
    let mut r = workspace.to_owned();
    r.append("/");
    r.append(folder);
    r
}

/// Where the fuzz tool leaves crash artifacts: its conventional
/// artifact directory for one target, under the working directory.
pub fn artifact_dir(workdir: &str, target: &str) -> (r: String)
    ensures
        r@ == workdir@ + "/fuzz/artifacts/"@ + target@,
{
    let mut r = workdir.to_owned();
    r.append("/fuzz/artifacts/");
    r.append(target);
    r
}

} // verus!
