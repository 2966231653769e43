//! `hmm merge`: merges the commits made in a workspace into the branch the
//! directory it was made from is on.
//!
//! The workspace's repository is read by git in the sandbox, as the command
//! in the workspace may have changed its configuration: git there packs the
//! commits made since the workspace was made into a bundle, which is only
//! data, and git here fetches them from it, checking every object.
//! `Merge::step` decides, from what each step found, what to do next.

use vstd::prelude::*;
use vstd::string::*;

use crate::error::{Error, ErrorView};
use crate::git::{git, git_of, pointing_vars};
use crate::invocation::{push_str, strings, strs, Invocation, InvocationView};
use crate::name::{is_commit, is_commit_id};
use crate::path::{join, joined};
use crate::text::{same, trim, trimmed};

verus! {

/// Merge the commits made in a workspace into the branch the directory it
/// was made from is on.
pub struct Merge {
    /// The workspace, by name, ID, or the start of an ID; the working
    /// directory's latest if none.
    pub workspace: Option<String>,
}

/// The workspace being merged.
pub struct Merging {
    /// Its ID.
    pub id: String,
    /// What `hmm` calls it.
    pub label: String,
    /// The directory it was made from.
    pub origin: String,
    /// The clone the command ran in.
    pub tree: String,
    /// The commit the directory was at when it was made, if any.
    pub head: Option<String>,
}

/// The workspace being merged, its text taken by its characters.
pub struct MergingView {
    pub id: Seq<char>,
    pub label: Seq<char>,
    pub origin: Seq<char>,
    pub tree: Seq<char>,
    pub head: Option<Seq<char>>,
}

impl View for Merging {
    type V = MergingView;

    open spec fn view(&self) -> MergingView {
        MergingView {
            id: self.id@,
            label: self.label@,
            origin: self.origin@,
            tree: self.tree@,
            head: match self.head {
                Some(h) => Some(h@),
                None => None,
            },
        }
    }
}

/// What a step of `hmm merge` found.
pub enum MergeEvent {
    /// Whether the origin is the top of a repository, and whether the
    /// workspace recorded what its files were when it was made.
    Started { toplevel: bool, forked: bool },
    /// What git in the sandbox printed as the workspace's commit.
    Tip { out: String },
    /// Whether git in the sandbox bundled the commits.
    Bundled { created: bool },
    /// Whether the commits were fetched from the bundle: not if the bundle is
    /// not a regular file, as the command could have left something else
    /// under its name.
    Fetched { fetched: bool },
    /// What git printed as the tree of the commits fetched, and the tree of
    /// the workspace's files.
    Committed { tree: String, after: String },
    /// Whether git merged the commits.
    Merged { merged: bool },
}

/// What `hmm merge` does next.
pub enum MergeAction {
    /// Ask git in the sandbox, in the workspace's tree, for its commit.
    FindTip { command: Vec<String> },
    /// Bundle, with git in the sandbox in the workspace's tree, the commits
    /// made since the workspace was made.
    Bundle { command: Vec<String> },
    /// Fetch the commits from the bundle, if it is a regular file, with this
    /// command; then remove the bundle.
    Fetch { bundle: String, fetch: Invocation },
    /// Ask git for the tree of the commits fetched.
    FindCommitted { query: Invocation },
    /// Say the warning if there is one, and merge with this command.
    Merge { warning: Option<String>, merge: Invocation },
    /// Say the message if there is one, and exit with this code.
    Exit { code: u8, message: Option<String> },
    /// Fail with this error.
    Fail { error: Error },
}

/// What `hmm merge` does next, its text taken by its characters.
pub enum MergeActionView {
    FindTip { command: Seq<Seq<char>> },
    Bundle { command: Seq<Seq<char>> },
    Fetch { bundle: Seq<char>, fetch: InvocationView },
    FindCommitted { query: InvocationView },
    Merge { warning: Option<Seq<char>>, merge: InvocationView },
    Exit { code: u8, message: Option<Seq<char>> },
    Fail { error: ErrorView },
}

impl View for MergeAction {
    type V = MergeActionView;

    open spec fn view(&self) -> MergeActionView {
        match self {
            MergeAction::FindTip { command } => MergeActionView::FindTip { command: strs(command@) },
            MergeAction::Bundle { command } => MergeActionView::Bundle { command: strs(command@) },
            MergeAction::Fetch { bundle, fetch } => MergeActionView::Fetch {
                bundle: bundle@,
                fetch: fetch@,
            },
            MergeAction::FindCommitted { query } => MergeActionView::FindCommitted { query: query@ },
            MergeAction::Merge { warning, merge } => MergeActionView::Merge {
                warning: match warning {
                    Some(w) => Some(w@),
                    None => None,
                },
                merge: merge@,
            },
            MergeAction::Exit { code, message } => MergeActionView::Exit {
                code: *code,
                message: match message {
                    Some(m) => Some(m@),
                    None => None,
                },
            },
            MergeAction::Fail { error } => MergeActionView::Fail { error: error@ },
        }
    }
}

/// The reference the commits are fetched to: `refs/hmm/<id>`.
pub open spec fn reference_of(id: Seq<char>) -> Seq<char> {
    "refs/hmm/"@ + id
}

/// The command, for git in the sandbox, that bundles the commits made since
/// `head`, or all of them if there is no `head`.
pub open spec fn bundle_command_of(head: Option<Seq<char>>) -> Seq<Seq<char>> {
    seq!["git"@, "bundle"@, "create"@, "--quiet"@, ".git/hmm.bundle"@, "HEAD"@] + match head {
        Some(h) => seq!["^"@ + h],
        None => Seq::empty(),
    }
}

/// The command that fetches the commits in `bundle` into `origin`'s
/// repository as `refs/hmm/<id>`, checking every object.
pub open spec fn fetch_of(origin: Seq<char>, bundle: Seq<char>, id: Seq<char>) -> InvocationView {
    InvocationView {
        args: seq![
            "-C"@,
            origin,
            "-c"@,
            "fetch.fsckObjects=true"@,
            "fetch"@,
            "--quiet"@,
            "--no-tags"@,
            "--no-write-fetch-head"@,
            bundle,
            "+HEAD:"@ + reference_of(id),
        ],
        ..git_of()
    }
}

/// The command that asks git for the tree of the commits fetched.
pub open spec fn committed_query_of(origin: Seq<char>, id: Seq<char>) -> InvocationView {
    InvocationView {
        args: seq!["-C"@, origin, "rev-parse"@, reference_of(id) + "^{tree}"@],
        ..git_of()
    }
}

/// The command that merges the commits fetched into the branch `origin` is
/// on, with the message `Merge workspace <label>`.
pub open spec fn merge_of(origin: Seq<char>, label: Seq<char>, id: Seq<char>) -> InvocationView {
    InvocationView {
        args: seq![
            "-C"@,
            origin,
            "merge"@,
            "--no-edit"@,
            "-m"@,
            "Merge workspace "@ + label,
            reference_of(id),
        ],
        ..git_of()
    }
}

/// Whether `tip` is a commit made in the workspace: a commit's ID, other
/// than `head`, the commit the directory was at when it was made.
#[verifier::opaque]
pub open spec fn has_commits_of(head: Option<Seq<char>>, tip: Seq<char>) -> bool {
    is_commit_id(tip) && head != Some(tip)
}

/// What `hmm merge` does once git in the sandbox printed `out` as the
/// workspace's commit.
pub open spec fn tip_of(m: MergingView, out: Seq<char>) -> MergeActionView {
    tip_found_of(m, trimmed(out))
}

/// What `hmm merge` does once it found `tip`, trimmed, as the workspace's
/// commit.
pub open spec fn tip_found_of(m: MergingView, tip: Seq<char>) -> MergeActionView {
    if !has_commits_of(m.head, tip) {
        MergeActionView::Exit {
            code: 1,
            message: Some(
                "hmm: workspace "@ + m.label + " has no commits to merge: hmm apply applies its changes"@,
            ),
        }
    } else {
        MergeActionView::Bundle { command: bundle_command_of(m.head) }
    }
}

/// What `hmm merge` does once git printed `tree` as the tree of the commits
/// fetched, and the workspace's files are the tree `after`.
pub open spec fn committed_of(m: MergingView, tree: Seq<char>, after: Seq<char>) -> MergeActionView {
    MergeActionView::Merge { warning: warning_of(m.label, tree, after), merge: merge_of(m.origin, m.label, m.id) }
}

/// What `hmm merge` says if the workspace's files, the tree `after`, are not
/// the tree of the commits fetched, which git printed as `tree`: that the
/// workspace has changes it did not commit, which are not merged.
#[verifier::opaque]
pub open spec fn warning_of(label: Seq<char>, tree: Seq<char>, after: Seq<char>) -> Option<Seq<char>> {
    if after != trimmed(tree) {
        Some("hmm: workspace "@ + label + " has changes it did not commit, which are not merged"@)
    } else {
        None
    }
}

/// What `hmm merge` does after a step found `event`, for the workspace `m`:
/// - it fails unless the workspace was made from the top of a repository;
/// - it asks git in the sandbox for the workspace's commit, and says there is
///   nothing to merge, failing, unless that is a commit other than the one
///   the directory was at;
/// - it bundles the commits made since, fetches them, and fails if either
///   cannot be done;
/// - it says so if the workspace has changes it did not commit, which are not
///   merged, and merges the commits, exiting with 0 if git did and 1 if not.
pub open spec fn merge_step_of(m: MergingView, event: MergeEvent) -> MergeActionView {
    match event {
        MergeEvent::Started { toplevel, forked } => if toplevel && forked {
            MergeActionView::FindTip { command: seq!["git"@, "rev-parse"@, "--verify"@, "HEAD"@] }
        } else {
            MergeActionView::Fail { error: ErrorView::NotTopLevel { label: m.label } }
        },
        MergeEvent::Tip { out } => tip_of(m, out@),
        MergeEvent::Bundled { created } => if created {
            let bundle = joined(joined(m.tree, ".git"@), "hmm.bundle"@);
            MergeActionView::Fetch { bundle, fetch: fetch_of(m.origin, bundle, m.id) }
        } else {
            MergeActionView::Fail { error: ErrorView::NotTaken { label: m.label } }
        },
        MergeEvent::Fetched { fetched } => if fetched {
            MergeActionView::FindCommitted { query: committed_query_of(m.origin, m.id) }
        } else {
            MergeActionView::Fail { error: ErrorView::NotTaken { label: m.label } }
        },
        MergeEvent::Committed { tree, after } => committed_of(m, tree@, after@),
        MergeEvent::Merged { merged } => MergeActionView::Exit {
            code: if merged {
                0
            } else {
                1
            },
            message: None,
        },
    }
}

fn reference(id: &str) -> (r: String)
    ensures
        r@ == reference_of(id@),
{
    let mut r = "refs/hmm/".to_owned();
    r.append(id);
    r
}

fn fetch(origin: &str, bundle: &str, id: &str) -> (c: Invocation)
    ensures
        c@ == fetch_of(origin@, bundle@, id@),
{
    let mut c = git();
    c.args(&["-C"]);
    c.arg(origin);
    c.args(
        &[
            "-c",
            "fetch.fsckObjects=true",
            "fetch",
            "--quiet",
            "--no-tags",
            "--no-write-fetch-head",
        ],
    );
    c.arg(bundle);
    let mut spec = "+HEAD:".to_owned();
    let r = reference(id);
    spec.append(r.as_str());
    c.arg(spec.as_str());
    proof {
        assert(c@.args =~= fetch_of(origin@, bundle@, id@).args);
    }
    c
}

fn committed_query(origin: &str, id: &str) -> (c: Invocation)
    ensures
        c@ == committed_query_of(origin@, id@),
{
    let mut c = git();
    c.arg("-C");
    c.arg(origin);
    c.arg("rev-parse");
    let mut r = reference(id);
    r.append("^{tree}");
    c.arg(r.as_str());
    proof {
        assert(c@.args =~= committed_query_of(origin@, id@).args);
    }
    c
}

fn merge(origin: &str, label: &str, id: &str) -> (c: Invocation)
    ensures
        c@ == merge_of(origin@, label@, id@),
{
    let mut c = git();
    c.arg("-C");
    c.arg(origin);
    c.args(&["merge", "--no-edit", "-m"]);
    let mut message = "Merge workspace ".to_owned();
    message.append(label);
    c.arg(message.as_str());
    let r = reference(id);
    c.arg(r.as_str());
    proof {
        assert(c@.args =~= merge_of(origin@, label@, id@).args);
    }
    c
}

fn bundle_command(head: &Option<String>) -> (c: Vec<String>)
    ensures
        strs(c@) == bundle_command_of(match head {
            Some(h) => Some(h@),
            None => None,
        }),
{
    let mut c = strings(&["git", "bundle", "create", "--quiet", ".git/hmm.bundle", "HEAD"]);
    proof {
        assert(strs(c@) =~= seq!["git"@, "bundle"@, "create"@, "--quiet"@, ".git/hmm.bundle"@, "HEAD"@]);
    }
    match head {
        Some(h) => {
            let mut exclude = "^".to_owned();
            exclude.append(h.as_str());
            push_str(&mut c, exclude.as_str());
        },
        None => {},
    }
    proof {
        assert(strs(c@) =~= bundle_command_of(match head {
            Some(h) => Some(h@),
            None => None,
        }));
    }
    c
}

fn head_is(head: &Option<String>, tip: &str) -> (b: bool)
    ensures
        b == (match head {
            Some(h) => Some(h@),
            None => None,
        } == Some(tip@)),
{
    match head {
        Some(h) => same(h.as_str(), tip),
        None => false,
    }
}

fn has_commits(head: &Option<String>, tip: &str) -> (b: bool)
    ensures
        b == has_commits_of(match head {
            Some(h) => Some(h@),
            None => None,
        }, tip@),
{
    reveal(has_commits_of);
    is_commit(tip) && !head_is(head, tip)
}

fn no_commits(label: &str) -> (m: String)
    ensures
        m@ == "hmm: workspace "@ + label@ + " has no commits to merge: hmm apply applies its changes"@,
{
    let mut message = "hmm: workspace ".to_owned();
    message.append(label);
    message.append(" has no commits to merge: hmm apply applies its changes");
    message
}

fn after_tip(m: &Merging, tip: &str) -> (a: MergeAction)
    ensures
        a@ == tip_found_of(m@, tip@),
{
    let found = has_commits(&m.head, tip);
    if !found {
        MergeAction::Exit { code: 1, message: Some(no_commits(m.label.as_str())) }
    } else {
        MergeAction::Bundle { command: bundle_command(&m.head) }
    }
}

fn after_bundle(m: &Merging, created: bool) -> (a: MergeAction)
    ensures
        a@ == merge_step_of(m@, MergeEvent::Bundled { created }),
{
    if created {
        let git_dir = join(m.tree.as_str(), ".git");
        let bundle = join(git_dir.as_str(), "hmm.bundle");
        let fetch = fetch(m.origin.as_str(), bundle.as_str(), m.id.as_str());
        MergeAction::Fetch { bundle, fetch }
    } else {
        MergeAction::Fail { error: Error::NotTaken { label: m.label.clone() } }
    }
}

fn warning(label: &str, tree: &str, after: &str) -> (w: Option<String>)
    ensures
        match w {
            Some(x) => Some(x@),
            None => None,
        } == warning_of(label@, tree@, after@),
{
    reveal(warning_of);
    let committed = trim(tree);
    if !same(after, committed.as_str()) {
        let mut w = "hmm: workspace ".to_owned();
        w.append(label);
        w.append(" has changes it did not commit, which are not merged");
        Some(w)
    } else {
        None
    }
}

fn after_commit(m: &Merging, tree: &str, after: &str) -> (a: MergeAction)
    ensures
        a@ == committed_of(m@, tree@, after@),
{
    let merge = merge(m.origin.as_str(), m.label.as_str(), m.id.as_str());
    let warning = warning(m.label.as_str(), tree, after);
    MergeAction::Merge { warning, merge }
}

impl Merge {
    /// What `hmm merge` does after a step found `event`, for the workspace
    /// `m`.
    pub fn step(&self, m: &Merging, event: MergeEvent) -> (a: MergeAction)
        ensures
            a@ == merge_step_of(m@, event),
    {
        match event {
            MergeEvent::Started { toplevel, forked } => {
                if toplevel && forked {
                    let command = strings(&["git", "rev-parse", "--verify", "HEAD"]);
                    assert(strs(command@) =~= seq!["git"@, "rev-parse"@, "--verify"@, "HEAD"@]);
                    MergeAction::FindTip { command }
                } else {
                    MergeAction::Fail { error: Error::NotTopLevel { label: m.label.clone() } }
                }
            },
            MergeEvent::Tip { out } => {
                let tip = trim(out.as_str());
                after_tip(m, tip.as_str())
            },
            MergeEvent::Bundled { created } => after_bundle(m, created),
            MergeEvent::Fetched { fetched } => {
                if fetched {
                    MergeAction::FindCommitted { query: committed_query(m.origin.as_str(), m.id.as_str()) }
                } else {
                    MergeAction::Fail { error: Error::NotTaken { label: m.label.clone() } }
                }
            },
            MergeEvent::Committed { tree, after } => after_commit(m, tree.as_str(), after.as_str()),
            MergeEvent::Merged { merged } => MergeAction::Exit {
                code: if merged {
                    0
                } else {
                    1
                },
                message: None,
            },
        }
    }
}

/// Whether `c` runs git on the repository of `dir`: git, free of the
/// variables that would point it at another repository and setting none,
/// given `-C` and `dir` first.
pub open spec fn git_on(c: InvocationView, dir: Seq<char>) -> bool {
    &&& c.program == "git"@
    &&& c.unset == pointing_vars()
    &&& c.set.len() == 0
    &&& c.args.len() >= 2
    &&& c.args[0] == "-C"@
    &&& c.args[1] == dir
}

/// Git outside the sandbox never uses the workspace's repository: every
/// command `hmm merge` runs itself, rather than in the sandbox, runs git on
/// the repository of the directory the workspace was made from; and the
/// commands it runs in the sandbox are git too.
pub proof fn lemma_merge_git_runs_on_origin(m: MergingView, event: MergeEvent)
    ensures
        match merge_step_of(m, event) {
            MergeActionView::FindTip { command } => command.len() > 0 && command[0] == "git"@,
            MergeActionView::Bundle { command } => command.len() > 0 && command[0] == "git"@,
            MergeActionView::Fetch { fetch, .. } => git_on(fetch, m.origin),
            MergeActionView::FindCommitted { query } => git_on(query, m.origin),
            MergeActionView::Merge { merge, .. } => git_on(merge, m.origin),
            _ => true,
        },
{
    match event {
        MergeEvent::Started { toplevel, forked } => {
            assert(seq!["git"@, "rev-parse"@, "--verify"@, "HEAD"@][0] == "git"@);
        },
        MergeEvent::Tip { out } => {
            lemma_tip_runs_git(m, out@);
        },
        MergeEvent::Bundled { created } => {
            let bundle = joined(joined(m.tree, ".git"@), "hmm.bundle"@);
            lemma_fetch_on_origin(m.origin, bundle, m.id);
        },
        MergeEvent::Fetched { fetched } => {
            lemma_query_on_origin(m.origin, m.id);
        },
        MergeEvent::Committed { tree, after } => {
            lemma_merge_on_origin(m.origin, m.label, m.id);
        },
        MergeEvent::Merged { .. } => {},
    }
}

proof fn lemma_tip_runs_git(m: MergingView, out: Seq<char>)
    ensures
        tip_of(m, out) matches MergeActionView::Bundle { command } ==> command.len() > 0 && command[0] == "git"@,
{
    let c = bundle_command_of(m.head);
    assert(c[0] == "git"@);
}

proof fn lemma_fetch_on_origin(origin: Seq<char>, bundle: Seq<char>, id: Seq<char>)
    ensures
        git_on(fetch_of(origin, bundle, id), origin),
{
}

proof fn lemma_query_on_origin(origin: Seq<char>, id: Seq<char>)
    ensures
        git_on(committed_query_of(origin, id), origin),
{
}

proof fn lemma_merge_on_origin(origin: Seq<char>, label: Seq<char>, id: Seq<char>)
    ensures
        git_on(merge_of(origin, label, id), origin),
{
}

/// `hmm merge` succeeds exactly when git merged: the only step that exits
/// with 0 is the one after git merged, and once git has run, `hmm merge`
/// exits, with 0 if it merged and 1 if not, saying nothing more.
pub proof fn lemma_merge_succeeds_exactly_when_merged(m: MergingView, event: MergeEvent)
    ensures
        (merge_step_of(m, event) matches MergeActionView::Exit { code, .. } && code == 0) <==> (
        event matches MergeEvent::Merged { merged } && merged),
        event matches MergeEvent::Merged { merged } ==> merge_step_of(m, event) == (MergeActionView::Exit {
            code: if merged {
                0u8
            } else {
                1u8
            },
            message: None,
        }),
{
    match event {
        MergeEvent::Tip { out } => {
            lemma_tip_never_succeeds(m, out@);
        },
        MergeEvent::Merged { merged } => {},
        _ => {},
    }
}

proof fn lemma_tip_never_succeeds(m: MergingView, out: Seq<char>)
    ensures
        !(tip_of(m, out) matches MergeActionView::Exit { code, .. } && code == 0),
{
}

} // verus!
