//! `hmm apply`: applies what changed in a workspace to the directory it was
//! made from.
//!
//! The workspace is picked and locked, as a command still running could be
//! halfway through a change, and its changes recorded; `Apply::step` then
//! decides, from what each step found, what to do next.

use vstd::prelude::*;
use vstd::string::*;

use crate::error::{Error, ErrorView};
use crate::git::{repo_git_of, Repo};
use crate::invocation::{strings, strs, Invocation, InvocationView};

verus! {

/// Apply what changed in a workspace to the directory it was made from.
pub struct Apply {
    /// Whether only to check whether the changes apply, changing nothing.
    pub check: bool,
    /// The workspace, by name, ID, or the start of an ID; the working
    /// directory's latest if none.
    pub workspace: Option<String>,
}

/// What a step of `hmm apply` found.
pub enum ApplyEvent {
    /// The changes were recorded: whether they change anything.
    Compared { changed: bool },
    /// Whether the patch, reversed, applies: whether it is applied already.
    CheckedApplied { applied: bool },
    /// Whether the patch applied (or, with `--check`, would).
    Applied { applied: bool },
}

/// What `hmm apply` does next.
pub enum ApplyAction {
    /// Check, quietly, whether the patch is applied already:
    /// `git apply` with these options.
    CheckApplied { options: Vec<String> },
    /// Apply the patch, showing git's reasons if it does not apply:
    /// `git apply` with these options.
    Apply { options: Vec<String> },
    /// Say this and exit with success.
    Done { message: String },
    /// Fail with this error.
    Fail { error: Error },
}

/// What `hmm apply` does next, its text taken by its characters.
pub enum ApplyActionView {
    CheckApplied { options: Seq<Seq<char>> },
    Apply { options: Seq<Seq<char>> },
    Done { message: Seq<char> },
    Fail { error: ErrorView },
}

impl View for ApplyAction {
    type V = ApplyActionView;

    open spec fn view(&self) -> ApplyActionView {
        match self {
            ApplyAction::CheckApplied { options } => ApplyActionView::CheckApplied {
                options: strs(options@),
            },
            ApplyAction::Apply { options } => ApplyActionView::Apply { options: strs(options@) },
            ApplyAction::Done { message } => ApplyActionView::Done { message: message@ },
            ApplyAction::Fail { error } => ApplyActionView::Fail { error: error@ },
        }
    }
}

/// What `hmm apply` does after a step found `event`, for the workspace
/// `label` of `origin`, checking only if `check` is set:
/// - if the changes change nothing, it says so and succeeds;
/// - otherwise it checks whether they are applied already, and if so says so
///   and succeeds;
/// - otherwise it applies them, or checks that they apply, all or nothing,
///   and says which, or fails, leaving the directory unchanged.
pub open spec fn apply_step_of(check: bool, label: Seq<char>, origin: Seq<char>, event: ApplyEvent) -> ApplyActionView {
    match event {
        ApplyEvent::Compared { changed } => if changed {
            ApplyActionView::CheckApplied { options: seq!["--reverse"@, "--check"@] }
        } else {
            ApplyActionView::Done { message: "hmm: workspace "@ + label + " changed nothing"@ }
        },
        ApplyEvent::CheckedApplied { applied } => if applied {
            ApplyActionView::Done {
                message: "hmm: workspace "@ + label + " is already applied to "@ + origin,
            }
        } else {
            ApplyActionView::Apply {
                options: if check {
                    seq!["--check"@]
                } else {
                    Seq::empty()
                },
            }
        },
        ApplyEvent::Applied { applied } => if !applied {
            ApplyActionView::Fail { error: ErrorView::DoesNotApply { label, origin } }
        } else if check {
            ApplyActionView::Done { message: "hmm: workspace "@ + label + " applies to "@ + origin }
        } else {
            ApplyActionView::Done { message: "hmm: applied workspace "@ + label + " to "@ + origin }
        },
    }
}

fn say(a: &str, b: &str, c: &str, d: &str) -> (m: String)
    ensures
        m@ == a@ + b@ + c@ + d@,
{
    let mut m = a.to_owned();
    m.append(b);
    m.append(c);
    m.append(d);
    m
}

impl Apply {
    /// What `hmm apply` does after a step found `event`, for the workspace
    /// `label` of `origin`.
    pub fn step(&self, label: &str, origin: &str, event: ApplyEvent) -> (a: ApplyAction)
        ensures
            a@ == apply_step_of(self.check, label@, origin@, event),
    {
        match event {
            ApplyEvent::Compared { changed } => {
                if changed {
                    let options = strings(&["--reverse", "--check"]);
                    assert(strs(options@) =~= seq!["--reverse"@, "--check"@]);
                    ApplyAction::CheckApplied { options }
                } else {
                    let mut message = "hmm: workspace ".to_owned();
                    message.append(label);
                    message.append(" changed nothing");
                    ApplyAction::Done { message }
                }
            },
            ApplyEvent::CheckedApplied { applied } => {
                if applied {
                    ApplyAction::Done {
                        message: say("hmm: workspace ", label, " is already applied to ", origin),
                    }
                } else if self.check {
                    let options = strings(&["--check"]);
                    assert(strs(options@) =~= seq!["--check"@]);
                    ApplyAction::Apply { options }
                } else {
                    let options: Vec<String> = Vec::new();
                    assert(strs(options@) =~= Seq::<Seq<char>>::empty());
                    ApplyAction::Apply { options }
                }
            },
            ApplyEvent::Applied { applied } => {
                if !applied {
                    ApplyAction::Fail {
                        error: Error::DoesNotApply { label: label.to_owned(), origin: origin.to_owned() },
                    }
                } else if self.check {
                    ApplyAction::Done { message: say("hmm: workspace ", label, " applies to ", origin) }
                } else {
                    ApplyAction::Done { message: say("hmm: applied workspace ", label, " to ", origin) }
                }
            },
        }
    }
}

/// The command that applies a patch, given on its input, to the files in
/// `origin` with `options`, which does all of it or none, and refuses to
/// touch anything outside `origin`.
pub fn git_apply(repo: &Repo, origin: &str, options: &Vec<String>) -> (c: Invocation)
    ensures
        c@ == (InvocationView {
            args: repo_git_of(repo@).args + seq!["--work-tree"@, origin@, "apply"@, "--whitespace=nowarn"@]
                + strs(options@),
            dir: Some(origin@),
            ..repo_git_of(repo@)
        }),
{
    let mut c = repo.git();
    c.arg("--work-tree");
    c.arg(origin);
    c.arg("apply");
    c.arg("--whitespace=nowarn");
    let ghost before = c@.args;
    let mut i: usize = 0;
    while i < options.len()
        invariant
            i <= options@.len(),
            c@ == (InvocationView { args: before + strs(options@).subrange(0, i as int), ..repo_git_of(repo@) }),
        decreases options@.len() - i,
    {
        c.arg(options[i].as_str());
        proof {
            assert(c@.args =~= before + strs(options@).subrange(0, i + 1));
        }
        i = i + 1;
    }
    proof {
        assert(strs(options@).subrange(0, options@.len() as int) =~= strs(options@));
        assert(before =~= repo_git_of(repo@).args + seq!["--work-tree"@, origin@, "apply"@, "--whitespace=nowarn"@]);
    }
    c.current_dir(origin);
    c
}

/// A workspace that changed nothing, or whose changes are applied already,
/// is left alone: after finding either, `hmm apply` says so and succeeds,
/// applying nothing.
pub proof fn lemma_unchanged_or_applied_is_left_alone(check: bool, label: Seq<char>, origin: Seq<char>)
    ensures
        apply_step_of(check, label, origin, ApplyEvent::Compared { changed: false }) is Done,
        apply_step_of(check, label, origin, ApplyEvent::CheckedApplied { applied: true }) is Done,
{
}

/// Only applying for real changes files: the check whether the changes are
/// applied already runs `git apply` with `--check`, and so does applying
/// them when `hmm apply --check` only checks whether they apply.
pub proof fn lemma_check_changes_nothing(check: bool, label: Seq<char>, origin: Seq<char>, event: ApplyEvent)
    ensures
        apply_step_of(check, label, origin, event) matches ApplyActionView::CheckApplied { options }
            ==> options.contains("--check"@),
        check ==> (apply_step_of(check, label, origin, event) matches ApplyActionView::Apply { options }
            ==> options.contains("--check"@)),
{
    match event {
        ApplyEvent::Compared { changed } => {
            if changed {
                assert(seq!["--reverse"@, "--check"@][1] == "--check"@);
            }
        },
        ApplyEvent::CheckedApplied { applied } => {
            if !applied && check {
                assert(seq!["--check"@][0] == "--check"@);
            }
        },
        ApplyEvent::Applied { .. } => {},
    }
}

} // verus!
