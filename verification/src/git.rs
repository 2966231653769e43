//! Git, as `hmm` uses it: to record what a directory was when a workspace was
//! made from it, and to compare the workspace with that.
//!
//! Git always runs outside the sandbox, so it never uses the repository in a
//! workspace's tree: its configuration can make git run any command, and the
//! command in the workspace may have changed it. It uses the repository of the
//! directory the workspace was made from, or, if that is not one, the
//! workspace's own.

use vstd::prelude::*;
use vstd::string::*;

use crate::error::{Error, ErrorView};
use crate::invocation::{Invocation, InvocationView, pairs, strs};
use crate::path::{join, joined};
use crate::text::{lines, lines_of, same, trim, trimmed};

verus! {

/// The variables that would point git at another repository than the one it
/// is given.
pub open spec fn pointing_vars() -> Seq<Seq<char>> {
    seq![
        "GIT_DIR"@,
        "GIT_WORK_TREE"@,
        "GIT_INDEX_FILE"@,
        "GIT_OBJECT_DIRECTORY"@,
        "GIT_ALTERNATE_OBJECT_DIRECTORIES"@,
        "GIT_COMMON_DIR"@,
    ]
}

/// A command that runs git, free of the variables that would point it at
/// another repository.
pub open spec fn git_of() -> InvocationView {
    InvocationView {
        program: "git"@,
        args: Seq::empty(),
        unset: pointing_vars(),
        set: Seq::empty(),
        dir: None,
    }
}

/// A command that runs git, free of the variables that would point it at
/// another repository.
pub fn git() -> (c: Invocation)
    ensures
        c@ == git_of(),
{
    let mut c = Invocation::new("git");
    c.env_remove("GIT_DIR");
    c.env_remove("GIT_WORK_TREE");
    c.env_remove("GIT_INDEX_FILE");
    c.env_remove("GIT_OBJECT_DIRECTORY");
    c.env_remove("GIT_ALTERNATE_OBJECT_DIRECTORIES");
    c.env_remove("GIT_COMMON_DIR");
    proof {
        assert(c@.unset =~= pointing_vars());
    }
    c
}

/// The command that asks git whether `dir` is the top of a repository, and
/// for its top, its git directory and its object directory, as absolute
/// paths, one a line.
pub open spec fn toplevel_query_of(dir: Seq<char>) -> InvocationView {
    InvocationView {
        args: seq![
            "-C"@,
            dir,
            "rev-parse"@,
            "--path-format=absolute"@,
            "--show-toplevel"@,
            "--git-dir"@,
            "--git-path"@,
            "objects"@,
        ],
        ..git_of()
    }
}

/// The command that asks git whether `dir` is the top of a repository.
pub fn toplevel_query(dir: &str) -> (c: Invocation)
    ensures
        c@ == toplevel_query_of(dir@),
{
    let mut c = git();
    c.arg("-C");
    c.arg(dir);
    c.arg("rev-parse");
    c.arg("--path-format=absolute");
    c.arg("--show-toplevel");
    c.arg("--git-dir");
    c.arg("--git-path");
    c.arg("objects");
    proof {
        assert(c@.args =~= seq![
            "-C"@,
            dir@,
            "rev-parse"@,
            "--path-format=absolute"@,
            "--show-toplevel"@,
            "--git-dir"@,
            "--git-path"@,
            "objects"@,
        ]);
    }
    c
}

/// The first three lines of what the query printed, if it succeeded and
/// printed as many: the top of the repository, its git directory and its
/// object directory.
pub open spec fn toplevel_lines_of(success: bool, out: Seq<char>) -> Option<
    (Seq<char>, Seq<char>, Seq<char>),
> {
    if success && lines_of(out).len() >= 3 {
        Some((lines_of(out)[0], lines_of(out)[1], lines_of(out)[2]))
    } else {
        None
    }
}

/// What the query found, from whether it succeeded and what it printed.
pub fn toplevel_lines(success: bool, out: &str) -> (r: Option<(String, String, String)>)
    ensures
        match toplevel_lines_of(success, out@) {
            Some((a, b, c)) => r matches Some((x, y, z)) && x@ == a && y@ == b && z@ == c,
            None => r is None,
        },
{
    if !success {
        return None;
    }
    let mut ls = lines(out);
    proof {
        assert(ls@.len() == lines_of(out@).len());
    }
    if ls.len() < 3 {
        return None;
    }
    proof {
        assert(ls@[0]@ == lines_of(out@)[0]);
        assert(ls@[1]@ == lines_of(out@)[1]);
        assert(ls@[2]@ == lines_of(out@)[2]);
    }
    ls.truncate(3);
    let c = ls.pop().unwrap();
    let b = ls.pop().unwrap();
    let a = ls.pop().unwrap();
    Some((a, b, c))
}

/// The repository `dir` is the top of, if it is one: its git directory and
/// its object directory, if the query succeeded, printed three lines, and the
/// first of them, the top, resolves to `dir` itself (`resolved_top`, none if
/// it cannot be resolved).
pub open spec fn toplevel_of(
    dir: Seq<char>,
    success: bool,
    out: Seq<char>,
    resolved_top: Option<Seq<char>>,
) -> Option<(Seq<char>, Seq<char>)> {
    match toplevel_lines_of(success, out) {
        Some((_, g, o)) => if resolved_top == Some(dir) {
            Some((g, o))
        } else {
            None
        },
        None => None,
    }
}

/// The repository `dir` is the top of, if it is one, from whether the query
/// succeeded, what it printed, and what the top it printed resolves to.
pub fn toplevel(dir: &str, success: bool, out: &str, resolved_top: Option<String>) -> (r: Option<
    (String, String),
>)
    ensures
        match toplevel_of(dir@, success, out@, match resolved_top {
            Some(t) => Some(t@),
            None => None,
        }) {
            Some((g, o)) => r matches Some((x, y)) && x@ == g && y@ == o,
            None => r is None,
        },
{
    match toplevel_lines(success, out) {
        None => None,
        Some((_, g, o)) => match resolved_top {
            Some(t) => if same(t.as_str(), dir) {
                Some((g, o))
            } else {
                None
            },
            None => None,
        },
    }
}

/// A repository to record trees in.
pub struct Repo {
    /// Its git directory.
    pub dir: String,
    /// Where the objects git makes go, and the repository's own objects, when
    /// the two are kept apart, so that the directory's repository gets none of
    /// the objects made for a workspace.
    pub objects: Option<(String, String)>,
}

/// A repository, its paths taken by their characters.
pub struct RepoView {
    pub dir: Seq<char>,
    pub objects: Option<(Seq<char>, Seq<char>)>,
}

impl View for Repo {
    type V = RepoView;

    open spec fn view(&self) -> RepoView {
        RepoView {
            dir: self.dir@,
            objects: match self.objects {
                Some((n, o)) => Some((n@, o@)),
                None => None,
            },
        }
    }
}

/// A command that runs git on the repository `repo`.
pub open spec fn repo_git_of(repo: RepoView) -> InvocationView {
    InvocationView {
        args: seq!["--git-dir"@, repo.dir],
        set: match repo.objects {
            Some((new, own)) => seq![
                ("GIT_OBJECT_DIRECTORY"@, new),
                ("GIT_ALTERNATE_OBJECT_DIRECTORIES"@, own),
            ],
            None => Seq::empty(),
        },
        ..git_of()
    }
}

/// The two commands that record a tree: one that adds its files to an index,
/// and one that writes the index as a tree and prints its ID.
pub struct Snapshot {
    /// Adds the files of the tree that git does not ignore to the index.
    pub add: Invocation,
    /// Writes the index as a tree.
    pub write: Invocation,
    /// The tree recorded.
    pub tree: String,
}

/// What a snapshot gives, from whether adding the files succeeded, whether
/// writing the tree did, and what the second printed: the tree's ID.
pub open spec fn recorded_of(tree: Seq<char>, added: bool, written: bool, out: Seq<char>) -> Result<
    Seq<char>,
    ErrorView,
> {
    if !added {
        Err(ErrorView::GitRead { path: tree })
    } else if !written {
        Err(ErrorView::GitRecord { path: tree })
    } else {
        Ok(trimmed(out))
    }
}

impl Snapshot {
    /// The tree's ID, from whether adding its files succeeded, whether writing
    /// it did, and what the second printed. The second runs only if the first
    /// succeeded.
    pub fn recorded(&self, added: bool, written: bool, out: &str) -> (r: Result<String, Error>)
        ensures
            match recorded_of(self.tree@, added, written, out@) {
                Ok(id) => r matches Ok(x) && x@ == id,
                Err(e) => r matches Err(x) && x@ == e,
            },
    {
        if !added {
            return Err(Error::GitRead { path: self.tree.clone() });
        }
        if !written {
            return Err(Error::GitRecord { path: self.tree.clone() });
        }
        Ok(trim(out))
    }
}

impl Repo {
    /// A command that runs git on the repository.
    pub fn git(&self) -> (c: Invocation)
        ensures
            c@ == repo_git_of(self@),
    {
        let mut c = git();
        c.arg("--git-dir");
        c.arg(self.dir.as_str());
        match &self.objects {
            Some((new, own)) => {
                c.env("GIT_OBJECT_DIRECTORY", new.as_str());
                c.env("GIT_ALTERNATE_OBJECT_DIRECTORIES", own.as_str());
            },
            None => {},
        }
        proof {
            assert(c@.args =~= seq!["--git-dir"@, self.dir@]);
            assert(c@.set =~= repo_git_of(self@).set);
        }
        c
    }

    /// The commands that record the files in `tree` that git does not ignore
    /// as a tree, keeping the index in `index`.
    pub fn snapshot(&self, tree: &str, index: &str) -> (s: Snapshot)
        ensures
            s.tree@ == tree@,
            s.add@ == (InvocationView {
                args: repo_git_of(self@).args + seq![
                    "--work-tree"@,
                    tree@,
                    "add"@,
                    "--all"@,
                    "--"@,
                    "."@,
                ],
                set: repo_git_of(self@).set.push(("GIT_INDEX_FILE"@, index@)),
                dir: Some(tree@),
                ..repo_git_of(self@)
            }),
            s.write@ == (InvocationView {
                args: repo_git_of(self@).args.push("write-tree"@),
                set: repo_git_of(self@).set.push(("GIT_INDEX_FILE"@, index@)),
                ..repo_git_of(self@)
            }),
    {
        let mut add = self.git();
        add.arg("--work-tree");
        add.arg(tree);
        add.arg("add");
        add.arg("--all");
        add.arg("--");
        add.arg(".");
        add.current_dir(tree);
        add.env("GIT_INDEX_FILE", index);
        let mut write = self.git();
        write.arg("write-tree");
        write.env("GIT_INDEX_FILE", index);
        proof {
            assert(add@.args =~= repo_git_of(self@).args + seq![
                "--work-tree"@,
                tree@,
                "add"@,
                "--all"@,
                "--"@,
                "."@,
            ]);
        }
        Snapshot { add, write, tree: tree.to_owned() }
    }
}


/// The repository to record a workspace's trees in, when its origin is the
/// top of a repository: the origin's, with the objects made for the
/// workspace kept in the workspace's `objects` directory.
pub open spec fn workspace_repo_of(workspace_dir: Seq<char>, git_dir: Seq<char>, objects: Seq<char>) -> RepoView {
    RepoView { dir: git_dir, objects: Some((joined(workspace_dir, "objects"@), objects)) }
}

impl Repo {
    /// The repository to record the trees of the workspace in `workspace_dir`
    /// in, when its origin is the top of the repository whose git directory
    /// is `git_dir` and object directory `objects`.
    pub fn of_origin(workspace_dir: &str, git_dir: String, objects: String) -> (r: Repo)
        ensures
            r@ == workspace_repo_of(workspace_dir@, git_dir@, objects@),
    {
        Repo { dir: git_dir, objects: Some((join(workspace_dir, "objects"), objects)) }
    }

    /// The workspace's own repository, in `git` in the directory
    /// `workspace_dir`, for a workspace whose origin is not a repository.
    pub fn own(workspace_dir: &str) -> (r: Repo)
        ensures
            r@ == (RepoView { dir: joined(workspace_dir@, "git"@), objects: None }),
    {
        Repo { dir: join(workspace_dir, "git"), objects: None }
    }
}

/// The command that asks git for the commit `dir` is at.
pub fn head_query(dir: &str) -> (c: Invocation)
    ensures
        c@ == (InvocationView {
            args: seq!["-C"@, dir@, "rev-parse"@, "--verify"@, "--quiet"@, "HEAD"@],
            ..git_of()
        }),
{
    let mut c = git();
    c.arg("-C");
    c.arg(dir);
    c.arg("rev-parse");
    c.arg("--verify");
    c.arg("--quiet");
    c.arg("HEAD");
    proof {
        assert(c@.args =~= seq!["-C"@, dir@, "rev-parse"@, "--verify"@, "--quiet"@, "HEAD"@]);
    }
    c
}

/// The command that makes the bare repository `dir`.
pub fn init_bare(dir: &str) -> (c: Invocation)
    ensures
        c@ == (InvocationView { args: seq!["init"@, "--quiet"@, "--bare"@, dir@], ..git_of() }),
{
    let mut c = git();
    c.arg("init");
    c.arg("--quiet");
    c.arg("--bare");
    c.arg(dir);
    proof {
        assert(c@.args =~= seq!["init"@, "--quiet"@, "--bare"@, dir@]);
    }
    c
}

/// The commit the directory was at when a workspace was made from it, from
/// what its `head` file holds.
pub fn head(recorded: &str) -> (h: String)
    ensures
        h@ == trimmed(recorded@),
{
    trim(recorded)
}

/// What changed in a workspace: what the directory was when the workspace was
/// made and what the workspace's tree is now, recorded as trees in a
/// repository.
pub struct Changes {
    /// The repository the trees are in.
    pub repo: Repo,
    /// The ID of the tree the workspace was made from.
    pub before: String,
    /// The ID of the workspace's tree.
    pub after: String,
}

/// The arguments that make the changes a patch.
pub open spec fn patch_args_of(before: Seq<char>, after: Seq<char>) -> Seq<Seq<char>> {
    seq![
        "diff"@,
        "--binary"@,
        "--no-color"@,
        "--no-ext-diff"@,
        "--no-textconv"@,
        "--no-relative"@,
        "--src-prefix=a/"@,
        "--dst-prefix=b/"@,
        before,
        after,
    ]
}

impl Changes {
    /// The repository a workspace's changes are recorded in, from where its
    /// origin's repository is now: `Changes::of` uses the origin's repository
    /// if the workspace was made from the top of one, and fails if the origin
    /// no longer is one.
    pub fn origin_repo(workspace_dir: &str, origin: &str, found: Option<(String, String)>) -> (r: Result<Repo, Error>)
        ensures
            match found {
                Some((g, o)) => r matches Ok(repo) && repo@ == workspace_repo_of(workspace_dir@, g@, o@),
                None => r matches Err(e) && e@ == (ErrorView::NoLongerRepository { origin: origin@ }),
            },
    {
        match found {
            Some((g, o)) => Ok(Repo::of_origin(workspace_dir, g, o)),
            None => Err(Error::NoLongerRepository { origin: origin.to_owned() }),
        }
    }

    /// The command that makes the changes a patch that `git apply` applies to
    /// the directory the workspace was made from, whatever the configuration
    /// says about how to show a diff.
    pub fn patch(&self) -> (c: Invocation)
        ensures
            c@ == (InvocationView {
                args: repo_git_of(self.repo@).args + patch_args_of(self.before@, self.after@),
                ..repo_git_of(self.repo@)
            }),
    {
        let mut c = self.repo.git();
        c.args(&["diff", "--binary", "--no-color", "--no-ext-diff", "--no-textconv", "--no-relative", "--src-prefix=a/", "--dst-prefix=b/"]);
        c.arg(self.before.as_str());
        c.arg(self.after.as_str());
        proof {
            assert(c@.args =~= repo_git_of(self.repo@).args + patch_args_of(self.before@, self.after@));
        }
        c
    }

    /// The patch, from whether git could make it and what it printed: an
    /// error if it could not.
    pub fn patched(success: bool, out: Vec<u8>) -> (r: Result<Vec<u8>, Error>)
        ensures
            success ==> (r matches Ok(p) && p@ == out@),
            !success ==> (r matches Err(e) && e@ == ErrorView::GitPatch),
    {
        if success {
            Ok(out)
        } else {
            Err(Error::GitPatch)
        }
    }

    /// Whether the changes changed anything: whether the trees differ.
    pub fn changed(&self) -> (b: bool)
        ensures
            b == (self.before@ != self.after@),
    {
        !same(self.before.as_str(), self.after.as_str())
    }
}

/// Whatever git's configuration says about showing a diff, the patch is
/// made the same way: as binary where it must be, without color, external
/// diff drivers or text conversion, relative to the top of the repository,
/// and with the `a/` and `b/` prefixes that `git apply` expects.
pub proof fn lemma_patch_ignores_configuration(before: Seq<char>, after: Seq<char>)
    ensures
        patch_args_of(before, after).subrange(1, 8) == seq![
            "--binary"@,
            "--no-color"@,
            "--no-ext-diff"@,
            "--no-textconv"@,
            "--no-relative"@,
            "--src-prefix=a/"@,
            "--dst-prefix=b/"@,
        ],
        patch_args_of(before, after).subrange(8, 10) == seq![before, after],
{
    assert(patch_args_of(before, after).subrange(1, 8) =~= seq![
        "--binary"@,
        "--no-color"@,
        "--no-ext-diff"@,
        "--no-textconv"@,
        "--no-relative"@,
        "--src-prefix=a/"@,
        "--dst-prefix=b/"@,
    ]);
    assert(patch_args_of(before, after).subrange(8, 10) =~= seq![before, after]);
}

/// Whatever the environment says, git is asked about the directory given:
/// the query for the top of a repository runs free of every variable that
/// would point git at another repository, and sets none.
pub proof fn lemma_toplevel_query_ignores_environment(dir: Seq<char>)
    ensures
        forall|i: int| 0 <= i < pointing_vars().len() ==> toplevel_query_of(dir).unset.contains(
            #[trigger] pointing_vars()[i],
        ),
        toplevel_query_of(dir).set.len() == 0,
        toplevel_query_of(dir).args.subrange(0, 2) == seq!["-C"@, dir],
{
    assert forall|i: int| 0 <= i < pointing_vars().len() implies toplevel_query_of(dir).unset.contains(
        #[trigger] pointing_vars()[i],
    ) by {
        assert(toplevel_query_of(dir).unset[i] == pointing_vars()[i]);
    }
    assert(toplevel_query_of(dir).args.subrange(0, 2) =~= seq!["-C"@, dir]);
}

} // verus!
