//! What can go wrong, and what `hmm` says when it does.

use vstd::prelude::*;
use vstd::string::*;

verus! {

/// An error of `hmm`'s own, each with the values its message names.
pub enum Error {
    /// A name that cannot name a workspace.
    InvalidName { name: String },
    /// A name already taken among the workspaces of a directory.
    NameTaken { origin: String, name: String },
    /// A key that names no workspace and starts no workspace's ID.
    NotFound { key: String },
    /// A key that starts more than one workspace's ID.
    Ambiguous { key: String },
    /// A directory without workspaces.
    NoWorkspaces { origin: String },
    /// A workspace in which a command is running.
    Running { label: String },
    /// A directory that was the top of a repository and no longer is.
    NoLongerRepository { origin: String },
    /// A workspace with no record of what it was made from.
    NothingToCompare { label: String },
    /// Git could not read the files of a tree.
    GitRead { path: String },
    /// Git could not record the files of a tree.
    GitRecord { path: String },
    /// Git could not make a repository.
    GitInit,
    /// Git could not make a patch.
    GitPatch,
    /// Changes that do not apply to the directory.
    DoesNotApply { label: String, origin: String },
    /// A workspace not made from the top of a repository, which cannot be
    /// merged.
    NotTopLevel { label: String },
    /// Commits that could not be taken from a workspace.
    NotTaken { label: String },
    /// `rm` given no workspace.
    NothingToRemove,
    /// A directory that could not be copied, and why.
    Copying { origin: String, reason: String },
    /// A path that could not be resolved, and why.
    Path { path: String, reason: String },
    /// A system without the Landlock the sandbox needs.
    NoLandlock,
}

/// An error, its values taken by their characters.
pub enum ErrorView {
    InvalidName { name: Seq<char> },
    NameTaken { origin: Seq<char>, name: Seq<char> },
    NotFound { key: Seq<char> },
    Ambiguous { key: Seq<char> },
    NoWorkspaces { origin: Seq<char> },
    Running { label: Seq<char> },
    NoLongerRepository { origin: Seq<char> },
    NothingToCompare { label: Seq<char> },
    GitRead { path: Seq<char> },
    GitRecord { path: Seq<char> },
    GitInit,
    GitPatch,
    DoesNotApply { label: Seq<char>, origin: Seq<char> },
    NotTopLevel { label: Seq<char> },
    NotTaken { label: Seq<char> },
    NothingToRemove,
    Copying { origin: Seq<char>, reason: Seq<char> },
    Path { path: Seq<char>, reason: Seq<char> },
    NoLandlock,
}

impl View for Error {
    type V = ErrorView;

    open spec fn view(&self) -> ErrorView {
        match self {
            Error::InvalidName { name } => ErrorView::InvalidName { name: name@ },
            Error::NameTaken { origin, name } => ErrorView::NameTaken {
                origin: origin@,
                name: name@,
            },
            Error::NotFound { key } => ErrorView::NotFound { key: key@ },
            Error::Ambiguous { key } => ErrorView::Ambiguous { key: key@ },
            Error::NoWorkspaces { origin } => ErrorView::NoWorkspaces { origin: origin@ },
            Error::Running { label } => ErrorView::Running { label: label@ },
            Error::NoLongerRepository { origin } => ErrorView::NoLongerRepository {
                origin: origin@,
            },
            Error::NothingToCompare { label } => ErrorView::NothingToCompare { label: label@ },
            Error::GitRead { path } => ErrorView::GitRead { path: path@ },
            Error::GitRecord { path } => ErrorView::GitRecord { path: path@ },
            Error::GitInit => ErrorView::GitInit,
            Error::GitPatch => ErrorView::GitPatch,
            Error::DoesNotApply { label, origin } => ErrorView::DoesNotApply {
                label: label@,
                origin: origin@,
            },
            Error::NotTopLevel { label } => ErrorView::NotTopLevel { label: label@ },
            Error::NotTaken { label } => ErrorView::NotTaken { label: label@ },
            Error::NothingToRemove => ErrorView::NothingToRemove,
            Error::Copying { origin, reason } => ErrorView::Copying {
                origin: origin@,
                reason: reason@,
            },
            Error::Path { path, reason } => ErrorView::Path { path: path@, reason: reason@ },
            Error::NoLandlock => ErrorView::NoLandlock,
        }
    }
}

/// What `hmm` says of an error.
pub open spec fn message_of(e: ErrorView) -> Seq<char> {
    match e {
        ErrorView::InvalidName { name } => "a workspace's name is letters, digits, '-', '_' and '.': "@
            + name,
        ErrorView::NameTaken { origin, name } => origin + " already has a workspace named "@
            + name,
        ErrorView::NotFound { key } => "no workspace "@ + key,
        ErrorView::Ambiguous { key } => key + " is the start of more than one workspace's ID"@,
        ErrorView::NoWorkspaces { origin } => origin + " has no workspaces"@,
        ErrorView::Running { label } => "workspace "@ + label + " is running"@,
        ErrorView::NoLongerRepository { origin } => origin + " is no longer a git repository"@,
        ErrorView::NothingToCompare { label } => "workspace "@ + label
            + " has nothing to compare it with"@,
        ErrorView::GitRead { path } => "git could not read "@ + path,
        ErrorView::GitRecord { path } => "git could not record "@ + path,
        ErrorView::GitInit => "git could not make a repository"@,
        ErrorView::GitPatch => "git could not make a patch"@,
        ErrorView::DoesNotApply { label, origin } => "workspace "@ + label + " does not apply to "@
            + origin + ", which is unchanged"@,
        ErrorView::NotTopLevel { label } => "workspace "@ + label
            + " was not made from the top of a git repository: hmm apply applies its changes"@,
        ErrorView::NotTaken { label } => "could not take the commits from workspace "@ + label,
        ErrorView::NothingToRemove => "rm needs the workspaces to remove"@,
        ErrorView::Copying { origin, reason } => "copying "@ + origin + ": "@ + reason,
        ErrorView::Path { path, reason } => path + ": "@ + reason,
        ErrorView::NoLandlock => "the sandbox needs Landlock, in Linux 5.19 or later, enabled"@,
    }
}

/// Whether an error says that something was not found.
pub open spec fn is_not_found(e: ErrorView) -> bool {
    e is NotFound || e is NoWorkspaces
}

fn cat3(a: &str, b: &str, c: &str) -> (r: String)
    ensures
        r@ == a@ + b@ + c@,
{
    let mut r = a.to_owned();
    r.append(b);
    r.append(c);
    r
}

fn cat2(a: &str, b: &str) -> (r: String)
    ensures
        r@ == a@ + b@,
{
    let mut r = a.to_owned();
    r.append(b);
    r
}

impl Error {
    /// What `hmm` says of the error.
    pub fn message(&self) -> (m: String)
        ensures
            m@ == message_of(self@),
    {
        match self {
            Error::InvalidName { name } => cat2(
                "a workspace's name is letters, digits, '-', '_' and '.': ",
                name.as_str(),
            ),
            Error::NameTaken { origin, name } => cat3(
                origin.as_str(),
                " already has a workspace named ",
                name.as_str(),
            ),
            Error::NotFound { key } => cat2("no workspace ", key.as_str()),
            Error::Ambiguous { key } => cat2(
                key.as_str(),
                " is the start of more than one workspace's ID",
            ),
            Error::NoWorkspaces { origin } => cat2(origin.as_str(), " has no workspaces"),
            Error::Running { label } => cat3("workspace ", label.as_str(), " is running"),
            Error::NoLongerRepository { origin } => cat2(
                origin.as_str(),
                " is no longer a git repository",
            ),
            Error::NothingToCompare { label } => cat3(
                "workspace ",
                label.as_str(),
                " has nothing to compare it with",
            ),
            Error::GitRead { path } => cat2("git could not read ", path.as_str()),
            Error::GitRecord { path } => cat2("git could not record ", path.as_str()),
            Error::GitInit => "git could not make a repository".to_owned(),
            Error::GitPatch => "git could not make a patch".to_owned(),
            Error::DoesNotApply { label, origin } => {
                let mut m = cat3("workspace ", label.as_str(), " does not apply to ");
                m.append(origin.as_str());
                m.append(", which is unchanged");
                m
            },
            Error::NotTopLevel { label } => cat3(
                "workspace ",
                label.as_str(),
                " was not made from the top of a git repository: hmm apply applies its changes",
            ),
            Error::NotTaken { label } => cat2(
                "could not take the commits from workspace ",
                label.as_str(),
            ),
            Error::NothingToRemove => "rm needs the workspaces to remove".to_owned(),
            Error::Copying { origin, reason } => {
                let mut m = cat3("copying ", origin.as_str(), ": ");
                m.append(reason.as_str());
                m
            },
            Error::Path { path, reason } => cat3(path.as_str(), ": ", reason.as_str()),
            Error::NoLandlock => "the sandbox needs Landlock, in Linux 5.19 or later, enabled".to_owned(),
        }
    }

    /// Whether the error says that something was not found.
    pub fn not_found(&self) -> (b: bool)
        ensures
            b == is_not_found(self@),
    {
        match self {
            Error::NotFound { .. } => true,
            Error::NoWorkspaces { .. } => true,
            _ => false,
        }
    }
}

} // verus!
