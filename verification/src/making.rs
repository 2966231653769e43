//! Making a workspace, and finding what changed in one.
//!
//! A workspace records what its origin was when it was made. If the origin
//! is the top of a repository, that is the commit it is at, in `head`, and the
//! tree of its files, uncommitted changes included, in `fork`, made from a
//! copy of its index so that only the files changed since it was written are
//! read; then the origin is cloned into the workspace's tree. Otherwise it is
//! a clone, `base`, which the tree is cloned from, so that both are the
//! directory at the same moment. `make_step` decides, from what each step
//! found, what to do next.
//!
//! What changed in a workspace is then its tree against the `fork`, in the
//! origin's repository, so that what git ignores is left out; or, without a
//! `fork`, against the `base`, in a repository of the workspace's own, made
//! the first time it is needed. `changes_plan` decides which.

use vstd::prelude::*;
use vstd::string::*;

use crate::error::{Error, ErrorView};
use crate::git::{git_of, head_query, init_bare, workspace_repo_of, Repo, RepoView};
use crate::invocation::{Invocation, InvocationView};
use crate::path::{join, joined};
use crate::text::{trim, trimmed};

verus! {

/// A workspace being made.
pub struct Making {
    /// Its directory.
    pub dir: String,
    /// The directory it is made from.
    pub origin: String,
    /// The clone the command will run in.
    pub tree: String,
    /// Where the clone of the origin goes, if the origin is not the top of a
    /// repository.
    pub base: String,
}

/// A workspace being made, its paths taken by their characters.
pub struct MakingView {
    pub dir: Seq<char>,
    pub origin: Seq<char>,
    pub tree: Seq<char>,
    pub base: Seq<char>,
}

impl View for Making {
    type V = MakingView;

    open spec fn view(&self) -> MakingView {
        MakingView { dir: self.dir@, origin: self.origin@, tree: self.tree@, base: self.base@ }
    }
}

/// What a step of making a workspace found. `found` is the git directory and
/// the object directory of the repository the origin is the top of.
#[allow(inconsistent_fields)]
pub enum MakeEvent {
    /// Whether the origin is the top of a repository, and which.
    Started { found: Option<(String, String)> },
    /// The origin was cloned into `base`.
    BaseCloned,
    /// Whether git found the commit the origin is at, and what it printed.
    Head { found: (String, String), ok: bool, out: String },
    /// The commit was written to `head`.
    HeadWritten { found: (String, String) },
    /// Whether the repository's index was copied, and, if not, whether that
    /// is because there is none.
    IndexCopied { found: (String, String), ok: bool, not_found: bool },
    /// The tree of the origin's files was recorded as `fork`.
    Recorded { fork: String },
    /// The tree's ID was written to `fork`.
    ForkWritten,
    /// The tree was cloned.
    TreeCloned,
}

/// What making a workspace does next.
pub enum MakeAction {
    /// Clone the directory `from` to `to`, which the clone makes.
    CloneBase { from: String, to: String },
    /// Ask git for the commit the origin is at.
    QueryHead { query: Invocation },
    /// Write what git printed, the commit, to the file `path`.
    WriteHead { path: String, contents: String },
    /// Copy the repository's index from `from` to `to`.
    CopyIndex { from: String, to: String },
    /// Make the directory `objects`, then record the files of `tree` in
    /// `repo`, keeping the index in `index`.
    Snapshot { objects: String, repo: Repo, tree: String, index: String },
    /// Write the tree's ID to the file `path`.
    WriteFork { path: String, contents: String },
    /// Clone the directory `from` to the tree `to`.
    CloneTree { from: String, to: String },
    /// The workspace is made.
    Done,
    /// Fail with the error the last step gave.
    Fail,
}

/// What making a workspace does next, its text taken by its characters.
pub enum MakeActionView {
    CloneBase { from: Seq<char>, to: Seq<char> },
    QueryHead { query: InvocationView },
    WriteHead { path: Seq<char>, contents: Seq<char> },
    CopyIndex { from: Seq<char>, to: Seq<char> },
    Snapshot { objects: Seq<char>, repo: RepoView, tree: Seq<char>, index: Seq<char> },
    WriteFork { path: Seq<char>, contents: Seq<char> },
    CloneTree { from: Seq<char>, to: Seq<char> },
    Done,
    Fail,
}

impl View for MakeAction {
    type V = MakeActionView;

    open spec fn view(&self) -> MakeActionView {
        match self {
            MakeAction::CloneBase { from, to } => MakeActionView::CloneBase { from: from@, to: to@ },
            MakeAction::QueryHead { query } => MakeActionView::QueryHead { query: query@ },
            MakeAction::WriteHead { path, contents } => MakeActionView::WriteHead {
                path: path@,
                contents: contents@,
            },
            MakeAction::CopyIndex { from, to } => MakeActionView::CopyIndex { from: from@, to: to@ },
            MakeAction::Snapshot { objects, repo, tree, index } => MakeActionView::Snapshot {
                objects: objects@,
                repo: repo@,
                tree: tree@,
                index: index@,
            },
            MakeAction::WriteFork { path, contents } => MakeActionView::WriteFork {
                path: path@,
                contents: contents@,
            },
            MakeAction::CloneTree { from, to } => MakeActionView::CloneTree { from: from@, to: to@ },
            MakeAction::Done => MakeActionView::Done,
            MakeAction::Fail => MakeActionView::Fail,
        }
    }
}

/// The command that asks git for the commit `dir` is at.
pub open spec fn head_query_of(dir: Seq<char>) -> InvocationView {
    InvocationView {
        args: seq!["-C"@, dir, "rev-parse"@, "--verify"@, "--quiet"@, "HEAD"@],
        ..git_of()
    }
}

/// Copying the index of the repository whose git directory is `git_dir` into
/// the workspace in `dir`, as `fork.index`.
pub open spec fn copy_index_of(dir: Seq<char>, git_dir: Seq<char>) -> MakeActionView {
    MakeActionView::CopyIndex { from: joined(git_dir, "index"@), to: joined(dir, "fork.index"@) }
}

/// What making the workspace `m` does after a step found `event`:
/// - if the origin is not the top of a repository, it clones the origin to
///   `base`, then `base` to the tree;
/// - otherwise it asks git for the commit the origin is at, and writes it to
///   `head` only if git found one;
/// - it copies the repository's index to `fork.index`, and fails if that
///   cannot be done, unless there is no index;
/// - it records the origin's files, uncommitted changes included, as a tree
///   in the repository, its objects kept in the workspace's `objects`, and
///   writes the tree's ID to `fork`;
/// - then it clones the origin to the tree, and is done.
pub open spec fn make_step_of(m: MakingView, event: MakeEvent) -> MakeActionView {
    match event {
        MakeEvent::Started { found } => match found {
            None => MakeActionView::CloneBase { from: m.origin, to: m.base },
            Some(_) => MakeActionView::QueryHead { query: head_query_of(m.origin) },
        },
        MakeEvent::BaseCloned => MakeActionView::CloneTree { from: m.base, to: m.tree },
        MakeEvent::Head { found, ok, out } => if ok {
            MakeActionView::WriteHead { path: joined(m.dir, "head"@), contents: out@ }
        } else {
            copy_index_of(m.dir, found.0@)
        },
        MakeEvent::HeadWritten { found } => copy_index_of(m.dir, found.0@),
        MakeEvent::IndexCopied { found, ok, not_found } => if ok || not_found {
            MakeActionView::Snapshot {
                objects: joined(m.dir, "objects"@),
                repo: workspace_repo_of(m.dir, found.0@, found.1@),
                tree: m.origin,
                index: joined(m.dir, "fork.index"@),
            }
        } else {
            MakeActionView::Fail
        },
        MakeEvent::Recorded { fork } => MakeActionView::WriteFork {
            path: joined(m.dir, "fork"@),
            contents: fork@,
        },
        MakeEvent::ForkWritten => MakeActionView::CloneTree { from: m.origin, to: m.tree },
        MakeEvent::TreeCloned => MakeActionView::Done,
    }
}

fn copy_index(dir: &str, git_dir: &str) -> (a: MakeAction)
    ensures
        a@ == copy_index_of(dir@, git_dir@),
{
    MakeAction::CopyIndex { from: join(git_dir, "index"), to: join(dir, "fork.index") }
}

/// What making the workspace `m` does after a step found `event`.
pub fn make_step(m: &Making, event: MakeEvent) -> (a: MakeAction)
    ensures
        a@ == make_step_of(m@, event),
{
    match event {
        MakeEvent::Started { found } => match found {
            None => MakeAction::CloneBase { from: m.origin.clone(), to: m.base.clone() },
            Some(_) => MakeAction::QueryHead { query: head_query(m.origin.as_str()) },
        },
        MakeEvent::BaseCloned => MakeAction::CloneTree { from: m.base.clone(), to: m.tree.clone() },
        MakeEvent::Head { found, ok, out } => if ok {
            MakeAction::WriteHead { path: join(m.dir.as_str(), "head"), contents: out }
        } else {
            copy_index(m.dir.as_str(), found.0.as_str())
        },
        MakeEvent::HeadWritten { found } => copy_index(m.dir.as_str(), found.0.as_str()),
        MakeEvent::IndexCopied { found, ok, not_found } => if ok || not_found {
            let (g, o) = found;
            MakeAction::Snapshot {
                objects: join(m.dir.as_str(), "objects"),
                repo: Repo::of_origin(m.dir.as_str(), g, o),
                tree: m.origin.clone(),
                index: join(m.dir.as_str(), "fork.index"),
            }
        } else {
            MakeAction::Fail
        },
        MakeEvent::Recorded { fork } => MakeAction::WriteFork {
            path: join(m.dir.as_str(), "fork"),
            contents: fork,
        },
        MakeEvent::ForkWritten => MakeAction::CloneTree { from: m.origin.clone(), to: m.tree.clone() },
        MakeEvent::TreeCloned => MakeAction::Done,
    }
}

/// How to find what changed in a workspace.
pub enum ChangesPlan {
    /// Compare the workspace's tree, recorded in the origin's repository with
    /// its index in `after_index`, against the tree `before` it was made from.
    Fork { before: String, after_index: String },
    /// Record `base` and the tree in the workspace's own repository `repo`,
    /// with their indexes in `before_index` and `after_index`, and compare
    /// them.
    Base { repo: Repo, before_index: String, after_index: String },
    /// Make the workspace's own repository with `command` first, then do as
    /// `Base` does.
    InitThenBase { command: Invocation, repo: Repo, before_index: String, after_index: String },
    /// Fail with this error.
    Fail { error: Error },
}

/// How to find what changed in a workspace, its text taken by its
/// characters.
pub enum ChangesPlanView {
    Fork { before: Seq<char>, after_index: Seq<char> },
    Base { repo: RepoView, before_index: Seq<char>, after_index: Seq<char> },
    InitThenBase { command: InvocationView, repo: RepoView, before_index: Seq<char>, after_index: Seq<char> },
    Fail { error: ErrorView },
}

impl View for ChangesPlan {
    type V = ChangesPlanView;

    open spec fn view(&self) -> ChangesPlanView {
        match self {
            ChangesPlan::Fork { before, after_index } => ChangesPlanView::Fork {
                before: before@,
                after_index: after_index@,
            },
            ChangesPlan::Base { repo, before_index, after_index } => ChangesPlanView::Base {
                repo: repo@,
                before_index: before_index@,
                after_index: after_index@,
            },
            ChangesPlan::InitThenBase { command, repo, before_index, after_index } =>
                ChangesPlanView::InitThenBase {
                command: command@,
                repo: repo@,
                before_index: before_index@,
                after_index: after_index@,
            },
            ChangesPlan::Fail { error } => ChangesPlanView::Fail { error: error@ },
        }
    }
}

/// How to find what changed in the workspace `label` in the directory `dir`,
/// given what its `fork` file holds, if it has one, whether its `base` is a
/// directory, and whether its own repository, `git`, is there:
/// - with a `fork`, against the tree it names, trimmed;
/// - otherwise, against `base`, in the workspace's own repository, made
///   first if it is not there;
/// - and without a `base` either, an error: there is nothing to compare it
///   with.
pub open spec fn changes_plan_of(
    dir: Seq<char>,
    label: Seq<char>,
    fork: Option<Seq<char>>,
    base_is_dir: bool,
    repo_exists: bool,
) -> ChangesPlanView {
    let own = RepoView { dir: joined(dir, "git"@), objects: None };
    match fork {
        Some(f) => ChangesPlanView::Fork { before: trimmed(f), after_index: joined(dir, "tree.index"@) },
        None => if !base_is_dir {
            ChangesPlanView::Fail { error: ErrorView::NothingToCompare { label } }
        } else if repo_exists {
            ChangesPlanView::Base {
                repo: own,
                before_index: joined(dir, "base.index"@),
                after_index: joined(dir, "tree.index"@),
            }
        } else {
            ChangesPlanView::InitThenBase {
                command: InvocationView { args: seq!["init"@, "--quiet"@, "--bare"@, own.dir], ..git_of() },
                repo: own,
                before_index: joined(dir, "base.index"@),
                after_index: joined(dir, "tree.index"@),
            }
        },
    }
}

/// How to find what changed in the workspace `label` in the directory `dir`.
pub fn changes_plan(
    dir: &str,
    label: &str,
    fork: Option<String>,
    base_is_dir: bool,
    repo_exists: bool,
) -> (p: ChangesPlan)
    ensures
        p@ == changes_plan_of(dir@, label@, match fork {
            Some(f) => Some(f@),
            None => None,
        }, base_is_dir, repo_exists),
{
    match fork {
        Some(f) => ChangesPlan::Fork { before: trim(f.as_str()), after_index: join(dir, "tree.index") },
        None => {
            if !base_is_dir {
                return ChangesPlan::Fail { error: Error::NothingToCompare { label: label.to_owned() } };
            }
            let repo = Repo::own(dir);
            let before_index = join(dir, "base.index");
            let after_index = join(dir, "tree.index");
            if repo_exists {
                ChangesPlan::Base { repo, before_index, after_index }
            } else {
                let command = init_bare(repo.dir.as_str());
                ChangesPlan::InitThenBase { command, repo, before_index, after_index }
            }
        },
    }
}

/// Whether making the workspace's own repository succeeded: an error if git
/// could not make it.
pub fn inited(made: bool) -> (r: Result<(), Error>)
    ensures
        made ==> r is Ok,
        !made ==> (r matches Err(e) && e@ == ErrorView::GitInit),
{
    if made {
        Ok(())
    } else {
        Err(Error::GitInit)
    }
}

/// A workspace holds everything in its origin, uncommitted changes included:
/// of the top of a repository, the files recorded are the origin's own, in
/// the origin's repository, a missing index being no reason to fail, and the
/// tree is cloned from the origin once their tree is written; of any other
/// directory, the tree is cloned from the `base`, which was cloned from the
/// origin, so that both are the directory at the same moment. `head` is
/// written only with what git found.
pub proof fn lemma_make_keeps_everything(m: MakingView, found: (String, String), out: String)
    ensures
        make_step_of(m, MakeEvent::IndexCopied { found, ok: false, not_found: true })
            matches MakeActionView::Snapshot { tree, repo, .. } && tree == m.origin && repo.dir
            == found.0@,
        make_step_of(m, MakeEvent::ForkWritten) == (MakeActionView::CloneTree {
            from: m.origin,
            to: m.tree,
        }),
        make_step_of(m, MakeEvent::Started { found: None }) == (MakeActionView::CloneBase {
            from: m.origin,
            to: m.base,
        }),
        make_step_of(m, MakeEvent::BaseCloned) == (MakeActionView::CloneTree {
            from: m.base,
            to: m.tree,
        }),
        make_step_of(m, MakeEvent::Head { found, ok: false, out }) !is WriteHead,
{
}

} // verus!
