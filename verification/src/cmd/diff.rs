//! `hmm diff`: shows what changed in a workspace since it was made.
//!
//! The changes are recorded as trees in the repository of the directory the
//! workspace was made from, if it was the top of one, so that git leaves out
//! what it ignores, and otherwise in the workspace's own; git then shows them,
//! paged and colored as it is configured to.

use vstd::prelude::*;
use vstd::string::*;

use crate::git::{repo_git_of, Changes};
use crate::invocation::{Invocation, InvocationView};

verus! {

/// Show what changed in a workspace since it was made.
pub struct Diff {
    /// Whether to show only which files changed, and how much.
    pub stat: bool,
    /// The workspace, by name, ID, or the start of an ID; the working
    /// directory's latest if none.
    pub workspace: Option<String>,
}

impl Diff {
    /// The command that shows the changes: as a patch, or only which files
    /// changed and how much with `--stat`.
    pub fn command(&self, changes: &Changes) -> (c: Invocation)
        ensures
            c@ == (InvocationView {
                args: repo_git_of(changes.repo@).args + seq![
                    "diff"@,
                    if self.stat {
                        "--stat"@
                    } else {
                        "--patch"@
                    },
                    changes.before@,
                    changes.after@,
                ],
                ..repo_git_of(changes.repo@)
            }),
    {
        let mut c = changes.repo.git();
        c.arg("diff");
        if self.stat {
            c.arg("--stat");
        } else {
            c.arg("--patch");
        }
        c.arg(changes.before.as_str());
        c.arg(changes.after.as_str());
        proof {
            assert(c@.args =~= repo_git_of(changes.repo@).args + seq![
                "diff"@,
                if self.stat {
                    "--stat"@
                } else {
                    "--patch"@
                },
                changes.before@,
                changes.after@,
            ]);
        }
        c
    }
}

/// The exit code of a command: 0 if it succeeded, and 1 otherwise.
pub fn exit_code(success: bool) -> (code: u8)
    ensures
        code == (if success {
            0u8
        } else {
            1u8
        }),
{
    if success {
        0
    } else {
        1
    }
}

} // verus!
