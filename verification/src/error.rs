use vstd::prelude::*;

use crate::fs_path::{spec_describe, FsPath};

verus! {

/// What can go wrong while the app structure is prepared.
#[derive(Clone, Debug, PartialEq, Eq)]
pub enum AppStructureError {
    /// `path` does not lie inside of `project_path`.
    PathOutsideProject { path: FsPath, project_path: FsPath },
    /// Joining `join` onto the path `base` would leave the root of the file
    /// system.
    JoinLeavesRoot { base: String, join: String },
}

/// The message that reports `e`.
pub open spec fn spec_message(e: AppStructureError) -> Seq<char> {
    match e {
        AppStructureError::PathOutsideProject { path, project_path } => "Path "@ + spec_describe(path@)
            + " is not inside of the project path "@ + spec_describe(project_path@),
        AppStructureError::JoinLeavesRoot { base, join } => "Vc<FileSystemPath>(\""@ + base@
            + "\").join(\""@ + join@ + "\") leaves the filesystem root"@,
    }
}

impl AppStructureError {
    /// The message that reports this error.
    pub fn message(&self) -> (r: String)
        ensures
            r@ == spec_message(*self),
    {
        let mut r = String::new();
        match self {
            AppStructureError::PathOutsideProject { path, project_path } => {
                r.append("Path ");
                r.append(path.describe().as_str());
                r.append(" is not inside of the project path ");
                r.append(project_path.describe().as_str());
            },
            AppStructureError::JoinLeavesRoot { base, join } => {
                r.append("Vc<FileSystemPath>(\"");
                r.append(base.as_str());
                r.append("\").join(\"");
                r.append(join.as_str());
                r.append("\") leaves the filesystem root");
            },
        }
        r
    }
}

} // verus!
