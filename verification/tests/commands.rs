//! The scenarios of `hmm`'s commands, as the library decides them: each test
//! feeds the decisions what the command would find, and checks what they
//! say and do.

use hmm::cmd::apply::{Apply, ApplyAction, ApplyEvent, git_apply};
use hmm::cmd::diff::{Diff, exit_code as diff_exit_code};
use hmm::cmd::merge::{Merge, MergeAction, MergeEvent, Merging};
use hmm::cmd::rm::{Rm, remove_reference};
use hmm::cmd::run::{Run, confine, exit_code, hidden, where_is, writable};
use hmm::error::Error;
use hmm::git::{Changes, Repo, init_bare};
use hmm::workspace::Workspace;

const HOME: &str = "/home/user";
const ROOT: &str = "/home/user/.local/share/hmm";
const DIR: &str = "/work/project";

fn workspace(id: &str, origin: &str, name: Option<&str>) -> Workspace {
    Workspace {
        id: id.to_string(),
        dir: format!("{ROOT}/{id}"),
        origin: Some(origin.to_string()),
        name: name.map(String::from),
        created: Some(1),
        running: false,
    }
}

fn apply(check: bool) -> Apply {
    Apply { check, workspace: None }
}

fn done(a: ApplyAction) -> String {
    match a {
        ApplyAction::Done { message } => message,
        _ => panic!("not done"),
    }
}

fn options(a: ApplyAction) -> Vec<String> {
    match a {
        ApplyAction::Apply { options } => options,
        _ => panic!("not applying"),
    }
}

fn changes(repo: Repo) -> Changes {
    Changes { repo, before: "1111".to_string(), after: "2222".to_string() }
}

#[test]
fn apply_works_in_a_directory_that_is_not_a_repository() {
    let w = workspace("k3xq9a", DIR, None);
    let repo = Repo::own(&w.dir);
    assert_eq!(repo.dir, format!("{ROOT}/k3xq9a/git"));
    assert!(repo.objects.is_none());
    let a = apply(false);
    match a.step("k3xq9a", DIR, ApplyEvent::Compared { changed: true }) {
        ApplyAction::CheckApplied { options } => assert_eq!(options, ["--reverse", "--check"]),
        _ => panic!("does not check whether it is applied"),
    }
    assert!(options(a.step("k3xq9a", DIR, ApplyEvent::CheckedApplied { applied: false })).is_empty());
    let message = done(a.step("k3xq9a", DIR, ApplyEvent::Applied { applied: true }));
    assert_eq!(message, "hmm: applied workspace k3xq9a to /work/project");
    let git = git_apply(&repo, DIR, &vec![]);
    assert_eq!(git.args, ["--git-dir", &format!("{ROOT}/k3xq9a/git"), "--work-tree", DIR, "apply", "--whitespace=nowarn"]);
    assert_eq!(git.dir.as_deref(), Some(DIR));
}

#[test]
fn check_says_whether_the_changes_apply_and_changes_nothing() {
    let a = apply(true);
    assert_eq!(options(a.step("k3xq9a", DIR, ApplyEvent::CheckedApplied { applied: false })), ["--check"]);
    let message = done(a.step("k3xq9a", DIR, ApplyEvent::Applied { applied: true }));
    assert!(message.contains(&format!("workspace {} applies to", "k3xq9a")), "{message}");
    match a.step("k3xq9a", DIR, ApplyEvent::Applied { applied: false }) {
        ApplyAction::Fail { error } => {
            assert!(error.message().contains("does not apply"));
            assert_eq!(error.message(), "workspace k3xq9a does not apply to /work/project, which is unchanged");
        }
        _ => panic!("does not fail"),
    }
}

#[test]
fn leaves_an_applied_workspace_alone() {
    let a = apply(false);
    let message = done(a.step("k3xq9a", DIR, ApplyEvent::CheckedApplied { applied: true }));
    assert!(message.contains("already applied"), "{message}");
    assert_eq!(message, "hmm: workspace k3xq9a is already applied to /work/project");
}

#[test]
fn keeps_the_workspace() {
    let a = apply(false);
    let message = done(a.step("k3xq9a", DIR, ApplyEvent::Applied { applied: true }));
    assert!(message.starts_with("hmm: applied workspace"));
    let w = Workspace::latest(vec![workspace("k3xq9a", DIR, None)], DIR).ok().unwrap();
    assert_eq!(w.id, "k3xq9a");
    assert_eq!(w.tree().unwrap(), format!("{ROOT}/k3xq9a/tree/project"));
}

#[test]
fn says_so_when_the_workspace_changed_nothing() {
    let message = done(apply(false).step("k3xq9a", DIR, ApplyEvent::Compared { changed: false }));
    assert!(message.contains("changed nothing"));
    let c = Changes { repo: Repo::own(ROOT), before: "1".to_string(), after: "1".to_string() };
    assert!(!c.changed());
    assert!(changes(Repo::own(ROOT)).changed());
}

#[test]
fn apply_leaves_a_workspace_in_which_a_command_is_running_alone() {
    let w = workspace("k3xq9a", DIR, Some("busy"));
    let e = Error::Running { label: w.label() };
    assert!(e.message().contains("is running"));
    assert_eq!(e.message(), "workspace k3xq9a (busy) is running");
}

#[test]
fn apply_fails_for_a_workspace_that_does_not_exist() {
    let e = Workspace::pick(Vec::new(), DIR, Some("nope")).err().unwrap();
    assert!(e.message().contains("no workspace nope"));
    let e = Workspace::pick(Vec::new(), DIR, None).err().unwrap();
    assert!(e.message().contains("has no workspaces"));
}

#[test]
fn shows_what_changed_as_a_patch() {
    let c = changes(Repo::of_origin(&format!("{ROOT}/k3xq9a"), "/work/project/.git".to_string(), "/work/project/.git/objects".to_string()));
    let diff = Diff { stat: false, workspace: None }.command(&c);
    assert_eq!(diff.args, ["--git-dir", "/work/project/.git", "diff", "--patch", "1111", "2222"]);
    assert_eq!(diff.set, [
        ("GIT_OBJECT_DIRECTORY".to_string(), format!("{ROOT}/k3xq9a/objects")),
        ("GIT_ALTERNATE_OBJECT_DIRECTORIES".to_string(), "/work/project/.git/objects".to_string()),
    ]);
    let patch = c.patch();
    for arg in ["--binary", "--no-color", "--no-ext-diff", "--no-textconv", "--src-prefix=a/", "--dst-prefix=b/"] {
        assert!(patch.args.iter().any(|a| a == arg), "{arg}");
    }
    assert_eq!(&patch.args[patch.args.len() - 2..], ["1111", "2222"]);
}

#[test]
fn stat_shows_only_which_files_changed_and_how_much() {
    let c = changes(Repo::own(&format!("{ROOT}/k3xq9a")));
    let diff = Diff { stat: true, workspace: None }.command(&c);
    assert!(diff.args.iter().any(|a| a == "--stat"));
    assert!(!diff.args.iter().any(|a| a == "--patch"));
    assert_eq!(diff_exit_code(true), 0);
    assert_eq!(diff_exit_code(false), 1);
}

#[test]
fn shows_what_was_committed_in_the_workspace() {
    let repo = Repo::of_origin(&format!("{ROOT}/k3xq9a"), "/work/project/.git".to_string(), "/work/project/.git/objects".to_string());
    let tree = format!("{ROOT}/k3xq9a/tree/project");
    let s = repo.snapshot(&tree, &format!("{ROOT}/k3xq9a/tree.index"));
    assert_eq!(&s.add.args[2..], ["--work-tree", &tree, "add", "--all", "--", "."]);
    assert_eq!(s.add.dir.as_deref(), Some(tree.as_str()));
    assert_eq!(&s.write.args[2..], ["write-tree"]);
    assert_eq!(s.recorded(true, true, "4b825dc\n").ok().unwrap(), "4b825dc");
}

#[test]
fn diff_works_in_a_directory_that_is_not_a_repository() {
    let dir = format!("{ROOT}/k3xq9a");
    let init = init_bare(&format!("{dir}/git"));
    assert_eq!(init.program, "git");
    assert_eq!(init.args, ["init", "--quiet", "--bare", &format!("{dir}/git")]);
    let repo = Repo::own(&dir);
    let s = repo.snapshot(&format!("{dir}/base"), &format!("{dir}/base.index"));
    assert_eq!(s.write.set, [("GIT_INDEX_FILE".to_string(), format!("{dir}/base.index"))]);
    let e = s.recorded(false, false, "").err().unwrap();
    assert_eq!(e.message(), format!("git could not read {dir}/base"));
    let e = s.recorded(true, false, "").err().unwrap();
    assert_eq!(e.message(), format!("git could not record {dir}/base"));
}

#[test]
fn diff_fails_for_a_workspace_that_does_not_exist() {
    let e = Workspace::find(vec![workspace("k3xq9a", DIR, None)], DIR, "nope").err().unwrap();
    assert_eq!(e.message(), "no workspace nope");
}

#[test]
fn fails_without_workspaces() {
    let e = Workspace::latest(vec![workspace("k3xq9a", "/elsewhere", None)], DIR).err().unwrap();
    assert!(e.message().contains("has no workspaces"));
}

fn merging(head: Option<&str>) -> Merging {
    Merging {
        id: "k3xq9a".to_string(),
        label: "k3xq9a (feature)".to_string(),
        origin: DIR.to_string(),
        tree: format!("{ROOT}/k3xq9a/tree/project"),
        head: head.map(String::from),
    }
}

#[test]
fn merges_only_commits_and_says_so() {
    let m = merging(Some(&"a".repeat(40)));
    match (Merge { workspace: None }).step(&m, MergeEvent::Committed { tree: "3333\n".to_string(), after: "4444".to_string() }) {
        MergeAction::Merge { warning, merge } => {
            let warning = warning.unwrap();
            assert!(warning.contains("has changes it did not commit"), "{warning}");
            assert_eq!(merge.args, ["-C", DIR, "merge", "--no-edit", "-m", "Merge workspace k3xq9a (feature)", "refs/hmm/k3xq9a"]);
        }
        _ => panic!("does not merge"),
    }
    match (Merge { workspace: None }).step(&m, MergeEvent::Committed { tree: "3333\n".to_string(), after: "3333".to_string() }) {
        MergeAction::Merge { warning, .. } => assert!(warning.is_none()),
        _ => panic!("does not merge"),
    }
}

#[test]
fn fails_for_a_directory_that_is_not_a_repository() {
    let m = merging(None);
    match (Merge { workspace: None }).step(&m, MergeEvent::Started { toplevel: false, forked: false }) {
        MergeAction::Fail { error } => assert!(error.message().contains("not made from the top of a git repository")),
        _ => panic!("does not fail"),
    }
}

#[test]
fn fails_without_commits() {
    let head = "a".repeat(40);
    let m = merging(Some(&head));
    let merge = Merge { workspace: None };
    for out in [format!("{head}\n"), "fatal: not a repository\n".to_string(), String::new()] {
        match merge.step(&m, MergeEvent::Tip { out }) {
            MergeAction::Exit { code, message } => {
                assert_eq!(code, 1);
                assert!(message.unwrap().contains("has no commits to merge"));
            }
            _ => panic!("does not stop"),
        }
    }
    let tip = "b".repeat(40);
    match merge.step(&m, MergeEvent::Tip { out: format!("{tip}\n") }) {
        MergeAction::Bundle { command } => assert_eq!(command, ["git", "bundle", "create", "--quiet", ".git/hmm.bundle", "HEAD", &format!("^{head}")]),
        _ => panic!("does not bundle"),
    }
    match merge.step(&merging(None), MergeEvent::Tip { out: tip }) {
        MergeAction::Bundle { command } => assert_eq!(command.len(), 6),
        _ => panic!("does not bundle"),
    }
}

#[test]
fn takes_the_commits_through_a_bundle() {
    let m = merging(None);
    let merge = Merge { workspace: None };
    match merge.step(&m, MergeEvent::Started { toplevel: true, forked: true }) {
        MergeAction::FindTip { command } => assert_eq!(command, ["git", "rev-parse", "--verify", "HEAD"]),
        _ => panic!("does not look for the commit"),
    }
    match merge.step(&m, MergeEvent::Bundled { created: true }) {
        MergeAction::Fetch { bundle, fetch } => {
            assert_eq!(bundle, format!("{ROOT}/k3xq9a/tree/project/.git/hmm.bundle"));
            assert_eq!(fetch.args, ["-C", DIR, "-c", "fetch.fsckObjects=true", "fetch", "--quiet", "--no-tags", "--no-write-fetch-head", &bundle, "+HEAD:refs/hmm/k3xq9a"]);
        }
        _ => panic!("does not fetch"),
    }
    for event in [MergeEvent::Bundled { created: false }, MergeEvent::Fetched { fetched: false }] {
        match merge.step(&m, event) {
            MergeAction::Fail { error } => assert_eq!(error.message(), "could not take the commits from workspace k3xq9a (feature)"),
            _ => panic!("does not fail"),
        }
    }
    match merge.step(&m, MergeEvent::Fetched { fetched: true }) {
        MergeAction::FindCommitted { query } => assert_eq!(query.args, ["-C", DIR, "rev-parse", "refs/hmm/k3xq9a^{tree}"]),
        _ => panic!("does not look for the tree"),
    }
    match merge.step(&m, MergeEvent::Merged { merged: false }) {
        MergeAction::Exit { code, message } => assert_eq!((code, message), (1, None)),
        _ => panic!("does not exit"),
    }
}

#[test]
fn the_reference_merged_is_the_one_removed() {
    let m = merging(None);
    let merge = Merge { workspace: None };
    let fetched = match merge.step(&m, MergeEvent::Bundled { created: true }) {
        MergeAction::Fetch { fetch, .. } => fetch.args.last().unwrap().clone(),
        _ => panic!("does not fetch"),
    };
    let merged = match merge.step(&m, MergeEvent::Committed { tree: "3333".to_string(), after: "3333".to_string() }) {
        MergeAction::Merge { merge, .. } => merge.args.last().unwrap().clone(),
        _ => panic!("does not merge"),
    };
    let removed = remove_reference(DIR, "k3xq9a").args.last().unwrap().clone();
    assert_eq!(removed, "refs/hmm/k3xq9a");
    assert_eq!(fetched, format!("+HEAD:{removed}"));
    assert_eq!(merged, removed);
}

#[test]
fn git_outside_the_sandbox_runs_on_the_origin() {
    let m = merging(Some(&"a".repeat(40)));
    let merge = Merge { workspace: None };
    let events = [
        MergeEvent::Bundled { created: true },
        MergeEvent::Fetched { fetched: true },
        MergeEvent::Committed { tree: "3333".to_string(), after: "4444".to_string() },
    ];
    for event in events {
        let c = match merge.step(&m, event) {
            MergeAction::Fetch { fetch, .. } => fetch,
            MergeAction::FindCommitted { query } => query,
            MergeAction::Merge { merge, .. } => merge,
            _ => panic!("runs no git"),
        };
        assert_eq!(c.program, "git");
        assert_eq!(&c.args[..2], ["-C", DIR]);
        assert!(c.unset.iter().any(|v| v == "GIT_DIR"));
        assert!(c.set.is_empty());
    }
}

#[test]
fn needs_the_workspaces_to_remove() {
    let e = Rm { workspaces: Vec::new() }.check().err().unwrap();
    assert!(e.message().contains("rm needs the workspaces to remove"));
    assert!(Rm { workspaces: vec!["parser".to_string()] }.check().is_ok());
    assert_eq!(Rm::exit_code(&vec![false, false]), 0);
    assert_eq!(Rm::exit_code(&vec![false, true, false]), 1);
    assert_eq!(remove_reference(DIR, "k3xq9a").args, ["-C", DIR, "update-ref", "-d", "refs/hmm/k3xq9a"]);
}

#[test]
fn exits_with_the_commands_status() {
    assert_eq!(exit_code(Some(7), None), 7);
    assert_eq!(exit_code(Some(0), None), 0);
    assert_eq!(exit_code(Some(-1), None), 255);
    assert_eq!(exit_code(Some(256 + 3), None), 3);
}

#[test]
fn exits_with_128_plus_the_signal_that_ended_the_command() {
    assert_eq!(exit_code(None, Some(15)), 128 + 15);
    assert_eq!(exit_code(None, Some(2)), 128 + 2);
    assert_eq!(exit_code(None, None), 128);
}

fn run(rm: bool, command: &[&str]) -> Run {
    Run { rm, name: None, write: Vec::new(), command: command.iter().map(|s| s.to_string()).collect() }
}

#[test]
fn passes_everything_from_the_command_on_to_it() {
    let r = run(false, &["echo", "--resume", "-n", "x"]);
    let command = r.command(Some("/bin/zsh".to_string()));
    assert_eq!(command, ["echo", "--resume", "-n", "x"]);
    let tree = format!("{ROOT}/k3xq9a/tree/project");
    let c = confine(ROOT, &tree, &vec![], &vec![], &command);
    assert_eq!(&c.args[c.args.len() - 5..], ["--", "echo", "--resume", "-n", "x"]);
}

#[test]
fn runs_the_shell_without_a_command() {
    assert_eq!(run(false, &[]).command(Some("/bin/zsh".to_string())), ["/bin/zsh"]);
    assert_eq!(run(false, &[]).command(None), ["/bin/sh"]);
}

#[test]
fn runs_the_command_in_a_copy_of_everything_in_the_directory() {
    let w = workspace("k3xq9a", DIR, None);
    let tree = w.tree().unwrap();
    assert_eq!(tree, format!("{ROOT}/k3xq9a/tree/project"));
    let c = confine(ROOT, &tree, &vec![], &vec![], &vec!["pwd".to_string()]);
    assert_eq!(c.program, "/usr/bin/sandbox-exec");
    assert_eq!(c.dir.as_deref(), Some(tree.as_str()));
    assert!(c.args.iter().any(|a| *a == format!("CLONE={tree}")));
}

#[test]
fn changes_stay_in_the_workspace() {
    let w = Workspace::create(&Vec::new(), ROOT, DIR, None, &[1, 2, 3, 4, 5, 6]).ok().unwrap();
    assert_eq!(w.origin.as_deref(), Some(DIR));
    assert!(w.name.is_none());
    let tree = w.tree().unwrap();
    let ws = writable(HOME, "/tmp/t");
    let c = confine(ROOT, &tree, &ws, &vec![], &vec!["true".to_string()]);
    assert!(!c.args.iter().any(|a| a.ends_with(&format!("={DIR}"))));
    assert!(c.args.iter().any(|a| *a == format!("CLONE={tree}")));
}

#[test]
fn prints_where_the_workspace_is_before_and_after() {
    let r = run(false, &["true"]);
    let tree = format!("{ROOT}/k3xq9a/tree/project");
    let before = where_is("k3xq9a", &tree);
    assert_eq!(before, format!("hmm: workspace k3xq9a: {tree}"));
    assert_eq!(r.finished("k3xq9a", &tree).message, Some(before));
    assert!(!r.finished("k3xq9a", &tree).remove);
}

#[test]
fn removes_the_workspace_with_rm() {
    let r = run(true, &["sh", "-c", "echo x > f; exit 3"]);
    let f = r.finished("k3xq9a", "/t");
    assert!(f.remove);
    assert!(f.message.is_none());
}

#[test]
fn removes_the_workspace_with_rm_when_the_command_cannot_run() {
    let missing = format!("{HOME}/missing");
    let e = Error::Path { path: missing.clone(), reason: "No such file or directory (os error 2)".to_string() };
    assert!(e.message().contains("missing"));
    assert!(run(true, &["true"]).finished("k3xq9a", "/t").remove);
}

#[test]
fn the_command_writes_only_to_the_workspace() {
    let ws = writable(HOME, "/var/folders/xy/T");
    assert_eq!(ws, ["/tmp", "/var/folders/xy/T", "/home/user/.cargo", "/home/user/.rustup", "/home/user/.cache", "/home/user/.npm", "/home/user/Library/Caches"]);
    for path in [format!("{DIR}/escape"), format!("{HOME}/escape"), format!("{HOME}/.agent/x")] {
        assert!(!ws.iter().any(|w| path.starts_with(&format!("{w}/"))), "{path}");
    }
    let tree = format!("{ROOT}/k3xq9a/tree/project");
    let c = confine(ROOT, &tree, &ws, &vec![], &vec!["true".to_string()]);
    let profile = &c.args[1];
    assert!(profile.starts_with("(version 1)\n(allow default)\n(deny file-write*)\n(allow file-write* (subpath \"/dev\") (subpath (param \"W0\"))"));
    assert!(c.args.iter().any(|a| a == "W6=/home/user/Library/Caches"));
}

#[test]
fn the_command_writes_to_paths_given_with_w() {
    let mut ws = writable(HOME, "/tmp");
    ws.push(format!("{HOME}/.agent"));
    let tree = format!("{ROOT}/k3xq9a/tree/project");
    let c = confine(ROOT, &tree, &ws, &vec![], &vec!["true".to_string()]);
    assert!(c.args.iter().any(|a| *a == format!("W7={HOME}/.agent")));
}

#[test]
fn a_path_given_with_w_must_exist() {
    let missing = format!("{HOME}/missing");
    let e = Error::Path { path: missing.clone(), reason: "No such file or directory (os error 2)".to_string() };
    assert_eq!(e.message(), format!("{missing}: No such file or directory (os error 2)"));
}

#[test]
fn the_command_cannot_read_secrets() {
    let hs = hidden(HOME);
    for secret in [".ssh", ".aws", ".gnupg", ".config/gh"] {
        assert!(hs.contains(&format!("{HOME}/{secret}")), "{secret}");
    }
    assert!(!hs.contains(&format!("{HOME}/.config")));
    let tree = format!("{ROOT}/k3xq9a/tree/project");
    let c = confine(ROOT, &tree, &vec![], &hs, &vec!["cat".to_string()]);
    assert!(c.args.iter().any(|a| *a == format!("H0={HOME}/.ssh")));
    assert!(c.args[1].contains("(deny file-read-data file-write* (subpath (param \"H0\"))"));
}

#[test]
fn the_command_cannot_read_or_write_other_workspaces() {
    let tree = format!("{ROOT}/k3xq9a/tree/project");
    let c = confine(ROOT, &tree, &vec![], &vec![], &vec!["cat".to_string()]);
    assert!(c.args.iter().any(|a| *a == format!("H0={ROOT}")));
    let profile = &c.args[1];
    assert!(profile.ends_with("(allow file-read* file-read-data file-write* (subpath (param \"CLONE\")))\n"));
    for (i, above) in ["/home/user/.local/share/hmm/k3xq9a/tree", "/home/user/.local/share/hmm/k3xq9a", ROOT, "/home/user/.local/share", "/home/user/.local", "/home/user", "/home", "/"].iter().enumerate() {
        assert!(c.args.iter().any(|a| *a == format!("A{i}={above}")), "{above}");
    }
}
