//! `hmm rm`: removes workspaces.
//!
//! Each workspace given is found, locked, so that one in which a command is
//! running is not removed, and removed with everything in it; then the
//! reference `hmm merge` made to its commits is removed, if its origin is the
//! top of a repository. A workspace that cannot be found or removed is
//! reported, and the rest are still removed.

use vstd::prelude::*;
use vstd::string::*;

use crate::error::{Error, ErrorView};
use crate::git::{git, git_of};
use crate::invocation::{Invocation, InvocationView};
use crate::cmd::merge::{fetch_of, merge_of, reference_of};

verus! {

/// Remove workspaces, and everything in them.
pub struct Rm {
    /// The workspaces to remove, by name, ID, or the start of an ID.
    pub workspaces: Vec<String>,
}

/// The exit code of `hmm rm`: 0 if every workspace given was found and
/// removed, and 1 otherwise.
pub open spec fn rm_exit_of(failed: Seq<bool>) -> u8 {
    if exists|i: int| 0 <= i < failed.len() && #[trigger] failed[i] {
        1
    } else {
        0
    }
}

impl Rm {
    /// Checks that workspaces to remove were given.
    pub fn check(&self) -> (r: Result<(), Error>)
        ensures
            r is Ok <==> self.workspaces@.len() > 0,
            r matches Err(e) ==> e@ == ErrorView::NothingToRemove,
    {
        if self.workspaces.len() == 0 {
            Err(Error::NothingToRemove)
        } else {
            Ok(())
        }
    }

    /// The exit code, from whether removing each workspace failed.
    pub fn exit_code(failed: &Vec<bool>) -> (code: u8)
        ensures
            code == rm_exit_of(failed@),
    {
        let mut i: usize = 0;
        while i < failed.len()
            invariant
                i <= failed@.len(),
                forall|j: int| 0 <= j < i ==> !#[trigger] failed@[j],
            decreases failed@.len() - i,
        {
            if failed[i] {
                assert(failed@[i as int]);
                return 1;
            }
            i = i + 1;
        }
        0
    }
}

/// The command that removes the reference `hmm merge` made to the commits of
/// the workspace `id` in `origin`'s repository.
pub open spec fn remove_reference_of(origin: Seq<char>, id: Seq<char>) -> InvocationView {
    InvocationView {
        args: seq!["-C"@, origin, "update-ref"@, "-d"@, reference_of(id)],
        ..git_of()
    }
}

/// The command that removes the reference `hmm merge` made to the commits of
/// the workspace `id` in `origin`'s repository.
pub fn remove_reference(origin: &str, id: &str) -> (c: Invocation)
    ensures
        c@ == remove_reference_of(origin@, id@),
{
    let mut c = git();
    c.arg("-C");
    c.arg(origin);
    c.arg("update-ref");
    c.arg("-d");
    let mut r = "refs/hmm/".to_owned();
    r.append(id);
    c.arg(r.as_str());
    proof {
        assert(c@.args =~= remove_reference_of(origin@, id@).args);
    }
    c
}

/// The commits merged stay in the repository as `refs/hmm/<id>` until the
/// workspace is removed: the reference `hmm merge` fetches the commits of the
/// workspace `id` to is the one it merges from, and the one `hmm rm` deletes
/// from the same repository.
pub proof fn lemma_merged_reference_is_removed(origin: Seq<char>, bundle: Seq<char>, label: Seq<char>, id: Seq<char>)
    ensures
        fetch_of(origin, bundle, id).args.last() == "+HEAD:"@ + reference_of(id),
        merge_of(origin, label, id).args.last() == reference_of(id),
        remove_reference_of(origin, id).args.last() == reference_of(id),
        remove_reference_of(origin, id).args.subrange(0, 2) == fetch_of(origin, bundle, id).args.subrange(0, 2),
        remove_reference_of(origin, id).args.subrange(0, 2) == merge_of(origin, label, id).args.subrange(0, 2),
{
    assert(remove_reference_of(origin, id).args.subrange(0, 2) =~= seq!["-C"@, origin]);
    assert(fetch_of(origin, bundle, id).args.subrange(0, 2) =~= seq!["-C"@, origin]);
    assert(merge_of(origin, label, id).args.subrange(0, 2) =~= seq!["-C"@, origin]);
}

/// `hmm rm` fails exactly when removing some workspace given failed,
/// whichever it was: its exit code is 1 if any failed and 0 if none did,
/// and one more failure, at the end or anywhere, makes it 1.
pub proof fn lemma_rm_fails_if_any_failed(failed: Seq<bool>, more: Seq<bool>)
    ensures
        (exists|i: int| 0 <= i < failed.len() && #[trigger] failed[i]) ==> rm_exit_of(failed) == 1,
        (forall|i: int| 0 <= i < failed.len() ==> !#[trigger] failed[i]) ==> rm_exit_of(failed) == 0,
        rm_exit_of(failed.push(true)) == 1,
        rm_exit_of(failed) == 1 ==> rm_exit_of(failed + more) == 1,
{
    assert(failed.push(true)[failed.len() as int]);
    if rm_exit_of(failed) == 1 {
        let i = choose|i: int| 0 <= i < failed.len() && #[trigger] failed[i];
        assert((failed + more)[i]);
    }
}

} // verus!
