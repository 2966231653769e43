//! More scenarios of `hmm`'s commands, as the library decides them: which
//! workspace a command acts on, what git is asked to do, and what is said.

use hmm::cmd::apply::{git_apply, Apply, ApplyAction, ApplyEvent};
use hmm::cmd::diff::Diff;
use hmm::cmd::ls::{table, Ls, Row};
use hmm::cmd::merge::{Merge, MergeAction, MergeEvent, Merging};
use hmm::cmd::rm::{remove_reference, Rm};
use hmm::cmd::run::{confine, exit_code, writable, Run};
use hmm::git::{toplevel, Changes, Repo};
use hmm::making::{changes_plan, inited, make_step, ChangesPlan, MakeAction, MakeEvent, Making};
use hmm::name::ID_LEN;
use hmm::workspace::Workspace;

const HOME: &str = "/home/user";
const ROOT: &str = "/home/user/.local/share/hmm";
const DIR: &str = "/work/project";
const OTHER: &str = "/work/other";

fn ws(id: &str, origin: &str, name: Option<&str>, created: i128) -> Workspace {
    Workspace {
        id: id.to_string(),
        dir: format!("{ROOT}/{id}"),
        origin: Some(origin.to_string()),
        name: name.map(String::from),
        created: Some(created),
        running: false,
    }
}

fn origin_changes(id: &str, before: &str, after: &str) -> Changes {
    let repo = Changes::origin_repo(
        &format!("{ROOT}/{id}"),
        DIR,
        Some((format!("{DIR}/.git"), format!("{DIR}/.git/objects"))),
    )
    .ok()
    .unwrap();
    Changes { repo, before: before.to_string(), after: after.to_string() }
}

fn merging_of(name: Option<&str>) -> Merging {
    let id = "k3xq9a";
    Merging {
        id: id.to_string(),
        label: match name {
            Some(n) => format!("{id} ({n})"),
            None => id.to_string(),
        },
        origin: DIR.to_string(),
        tree: format!("{ROOT}/{id}/tree/project"),
        head: Some("a".repeat(40)),
    }
}

fn found(all: Vec<Workspace>, origin: &str, key: &str) -> String {
    Workspace::find(all, origin, key).ok().unwrap().id
}

fn not_found(all: Vec<Workspace>, origin: &str, key: &str) -> String {
    Workspace::find(all, origin, key).err().unwrap().message()
}

#[test]
fn makes_the_changes_in_the_directory_without_staging_or_committing() {
    let a = Apply { check: false, workspace: None };
    let options = match a.step("k3xq9a", DIR, ApplyEvent::CheckedApplied { applied: false }) {
        ApplyAction::Apply { options } => options,
        _ => panic!("does not apply"),
    };
    let c = git_apply(&origin_changes("k3xq9a", "1111", "2222").repo, DIR, &options);
    assert!(!c.args.iter().any(|a| a == "--index" || a == "--cached" || a == "commit"));
    assert_eq!(c.dir.as_deref(), Some(DIR));
    match a.step("k3xq9a", DIR, ApplyEvent::Applied { applied: true }) {
        ApplyAction::Done { message } => assert!(message.contains("applied workspace k3xq9a"), "{message}"),
        _ => panic!("does not say so"),
    }
}

#[test]
fn applies_uncommitted_and_committed_changes_alike() {
    // The changes are the tree recorded when the workspace was made against
    // its files now, whatever was committed in between.
    let c = origin_changes("k3xq9a", "1111", "2222");
    let patch = c.patch();
    assert_eq!(&patch.args[patch.args.len() - 2..], ["1111", "2222"]);
    assert!(c.changed());
}

#[test]
fn applies_binary_files() {
    let patch = origin_changes("k3xq9a", "1111", "2222").patch();
    assert!(patch.args.iter().any(|a| a == "--binary"));
    // The patch is passed on as the bytes git printed, whatever they are.
    let bytes = b"x\0y\xff".to_vec();
    assert_eq!(Changes::patched(true, bytes.clone()).ok().unwrap(), bytes);
    assert_eq!(Changes::patched(false, bytes).err().unwrap().message(), "git could not make a patch");
}

#[test]
fn applies_the_workspace_given() {
    let all = vec![ws("k3xq9a", DIR, Some("first"), 1), ws("p7mw2d", DIR, None, 2)];
    let w = Workspace::pick(all, DIR, Some("first")).ok().unwrap();
    assert_eq!(w.id, "k3xq9a");
}

#[test]
fn applies_over_changes_elsewhere_in_the_directory() {
    // The patch names files from the top of the directory, and git applies
    // it to the directory as it is now.
    let c = origin_changes("k3xq9a", "1111", "2222");
    let patch = c.patch();
    for arg in ["--no-relative", "--src-prefix=a/", "--dst-prefix=b/", "--no-color", "--no-ext-diff"] {
        assert!(patch.args.iter().any(|a| a == arg), "{arg}");
    }
    let apply = git_apply(&c.repo, DIR, &Vec::new());
    assert_eq!(&apply.args[apply.args.len() - 4..], ["--work-tree", DIR, "apply", "--whitespace=nowarn"]);
}

#[test]
fn applies_all_of_the_changes_or_none() {
    let a = Apply { check: false, workspace: None };
    match a.step("k3xq9a", DIR, ApplyEvent::Applied { applied: false }) {
        ApplyAction::Fail { error } => assert!(error.message().contains("does not apply")),
        _ => panic!("does not fail"),
    }
}

#[test]
fn shows_the_latest_workspace_or_the_one_given() {
    let all = || vec![ws("k3xq9a", DIR, Some("first"), 1), ws("p7mw2d", DIR, None, 2)];
    assert_eq!(Workspace::pick(all(), DIR, None).ok().unwrap().id, "p7mw2d");
    for key in ["first", "k3xq9a", "k3xq9"] {
        assert_eq!(Workspace::pick(all(), DIR, Some(key)).ok().unwrap().id, "k3xq9a", "{key}");
    }
    assert_eq!(Workspace::pick(all(), DIR, Some("p7mw2d")).ok().unwrap().id, "p7mw2d");
}

#[test]
fn shows_a_workspace_of_another_directory_by_id() {
    let all = || vec![ws("k3xq9a", DIR, Some("feature"), 1)];
    assert_eq!(found(all(), OTHER, "k3xq9a"), "k3xq9a");
    // Names are the directory's own.
    assert_eq!(not_found(all(), OTHER, "feature"), "no workspace feature");
}

#[test]
fn leaves_out_what_git_ignores() {
    // The files are recorded with the origin's repository, whose ignore
    // rules apply, rather than one in the workspace.
    let c = origin_changes("k3xq9a", "1111", "2222");
    let tree = format!("{ROOT}/k3xq9a/tree/project");
    let s = c.repo.snapshot(&tree, &format!("{ROOT}/k3xq9a/tree.index"));
    assert_eq!(
        s.add.args,
        ["--git-dir", &format!("{DIR}/.git"), "--work-tree", &tree, "add", "--all", "--", "."]
    );
    assert_eq!(s.add.dir.as_deref(), Some(tree.as_str()));
}

#[test]
fn leaves_out_what_changed_before_the_workspace_was_made() {
    // What the directory was, uncommitted changes included, is the tree
    // recorded when the workspace was made: a command that changes nothing
    // leaves nothing to show.
    let fork = hmm::git::head("1111\n");
    let c = origin_changes("k3xq9a", &fork, "1111");
    assert!(!c.changed());
}

#[test]
fn leaves_out_what_changed_in_the_directory_since() {
    // The workspace is compared with the tree recorded when it was made, not
    // with what the directory has become.
    let c = origin_changes("k3xq9a", "1111", "2222");
    let d = Diff { stat: false, workspace: None }.command(&c);
    assert_eq!(&d.args[d.args.len() - 4..], ["diff", "--patch", "1111", "2222"]);
    assert!(!d.args.iter().any(|a| a == "HEAD"));
}

#[test]
fn fast_forwards_when_the_branch_has_not_moved() {
    // Git merges as it would: a fast-forward when it can.
    let m = merging_of(None);
    match (Merge { workspace: None }).step(&m, MergeEvent::Committed { tree: "3333\n".to_string(), after: "3333".to_string() }) {
        MergeAction::Merge { warning, merge } => {
            assert!(warning.is_none());
            assert!(!merge.args.iter().any(|a| a == "--no-ff"));
            assert_eq!(merge.args.last().unwrap(), "refs/hmm/k3xq9a");
        }
        _ => panic!("does not merge"),
    }
}

#[test]
fn leaves_conflicts_to_resolve() {
    let m = merging_of(None);
    match (Merge { workspace: None }).step(&m, MergeEvent::Merged { merged: false }) {
        MergeAction::Exit { code, message } => assert_eq!((code, message), (1, None)),
        _ => panic!("does not exit"),
    }
}

#[test]
fn fails_for_a_directory_inside_a_repository() {
    let sub = format!("{DIR}/sub");
    let out = format!("{DIR}\n{DIR}/.git\n{DIR}/.git/objects\n");
    assert!(toplevel(&sub, true, &out, Some(DIR.to_string())).is_none());
    match (Merge { workspace: None }).step(&merging_of(None), MergeEvent::Started { toplevel: false, forked: true }) {
        MergeAction::Fail { error } => {
            assert!(error.message().contains("not made from the top of a git repository"))
        }
        _ => panic!("does not fail"),
    }
}

#[test]
fn leaves_a_draft_in_which_a_command_is_running_alone() {
    let w = ws("k3xq9a", DIR, None, 1);
    let e = hmm::error::Error::Running { label: w.label() };
    assert!(e.message().contains("is running"));
}

#[test]
fn removes_workspaces_by_name_id_and_the_start_of_an_id() {
    let all = || {
        vec![
            ws("k3xq9a", DIR, Some("parser"), 1),
            ws("p7mw2d", DIR, None, 2),
            ws("x4bc8e", DIR, None, 3),
        ]
    };
    assert_eq!(found(all(), DIR, "parser"), "k3xq9a");
    assert_eq!(found(all(), DIR, "p7mw2d"), "p7mw2d");
    assert_eq!(found(all(), DIR, "x"), "x4bc8e");
    assert_eq!(Rm::exit_code(&vec![false, false, false]), 0);
    assert_eq!(table(Vec::new()), "");
}

#[test]
fn keeps_the_directory() {
    // Removing a workspace touches nothing of its origin but the reference
    // `hmm merge` made.
    let c = remove_reference(DIR, "k3xq9a");
    assert_eq!(c.program, "git");
    assert_eq!(c.args, ["-C", DIR, "update-ref", "-d", "refs/hmm/k3xq9a"]);
}

#[test]
fn removes_the_reference_that_merge_made() {
    let m = merging_of(None);
    let fetched = match (Merge { workspace: None }).step(&m, MergeEvent::Bundled { created: true }) {
        MergeAction::Fetch { fetch, .. } => fetch.args.last().unwrap().clone(),
        _ => panic!("does not fetch"),
    };
    let reference = "refs/hmm/k3xq9a";
    assert_eq!(fetched, format!("+HEAD:{reference}"));
    assert_eq!(remove_reference(DIR, "k3xq9a").args.last().unwrap(), reference);
}

#[test]
fn removes_the_others_when_one_is_not_found() {
    let all = || vec![ws("k3xq9a", DIR, None, 1)];
    assert_eq!(not_found(all(), DIR, "nope"), "no workspace nope");
    assert_eq!(found(all(), DIR, "k3xq9a"), "k3xq9a");
    assert_eq!(Rm::exit_code(&vec![true, false]), 1);
}

#[test]
fn names_are_the_directorys_own_and_ids_are_not() {
    let all = || vec![ws("k3xq9a", DIR, Some("parser"), 1)];
    assert_eq!(not_found(all(), OTHER, "parser"), "no workspace parser");
    assert_eq!(found(all(), OTHER, "k3xq9a"), "k3xq9a");
}

#[test]
fn refuses_the_start_of_more_than_one_workspaces_id() {
    let all = vec![ws("k3xq9a", DIR, None, 1), ws("k7mw2d", DIR, None, 2)];
    assert_eq!(not_found(all, DIR, "k"), "k is the start of more than one workspace's ID");
}

#[test]
fn rm_leaves_a_workspace_in_which_a_command_is_running_alone() {
    let mut w = ws("k3xq9a", DIR, Some("busy"), 0);
    w.running = true;
    let ls = Ls { all: false };
    let row = ls.row(&w, DIR, 0, None).unwrap();
    assert_eq!(row.state, "running");
    let e = hmm::error::Error::Running { label: w.label() };
    assert!(e.message().contains("is running"));
    w.running = false;
    assert_eq!(ls.row(&w, DIR, 0, None).unwrap().state, "done");
}

#[test]
fn names_a_workspace() {
    let entropy = [0u8; ID_LEN];
    let w = Workspace::create(&Vec::new(), ROOT, DIR, Some("parser"), &entropy).ok().unwrap();
    assert_eq!(w.name.as_deref(), Some("parser"));
    let row = (Ls { all: false }).row(&w, DIR, 0, None).unwrap();
    let listing = table(vec![row]);
    let line = listing.lines().find(|line| line.starts_with(&w.id)).unwrap();
    assert_eq!(line.split_whitespace().nth(1), Some("parser"));
    let w = Workspace::create(&Vec::new(), ROOT, DIR, Some("lexer"), &entropy).ok().unwrap();
    assert_eq!(w.name.as_deref(), Some("lexer"));
}

#[test]
fn a_name_is_unique_among_the_directorys_workspaces() {
    let entropy = [1u8; ID_LEN];
    let all = vec![ws("k3xq9a", DIR, Some("parser"), 1)];
    let e = Workspace::create(&all, ROOT, DIR, Some("parser"), &entropy).err().unwrap();
    assert!(e.message().contains("already has a workspace named parser"));
    assert!(Workspace::create(&all, ROOT, OTHER, Some("parser"), &entropy).is_ok());
}

#[test]
fn a_name_is_letters_digits_dashes_underscores_and_dots() {
    let entropy = [2u8; ID_LEN];
    for name in ["a/b", "a b", "", "é", "a:b"] {
        let e = Workspace::create(&Vec::new(), ROOT, DIR, Some(name), &entropy).err().unwrap();
        assert!(e.message().contains("a workspace's name is"), "{name}");
    }
    assert!(Workspace::create(&Vec::new(), ROOT, DIR, Some("Aa0-_."), &entropy).is_ok());
}

#[test]
fn removes_the_workspace_with_rm_when_the_command_is_interrupted() {
    assert_eq!(exit_code(None, Some(2)), 128 + 2);
    let run = Run { rm: true, name: None, write: Vec::new(), command: Vec::new() };
    let finish = run.finished("k3xq9a", &format!("{ROOT}/k3xq9a/tree/project"));
    assert!(finish.remove);
    assert!(finish.message.is_none());
}

#[test]
fn the_command_writes_to_temporary_directories_and_caches() {
    let tmp = "/var/folders/xy/T";
    let w = writable(HOME, tmp);
    let caches: Vec<String> = [".cargo", ".rustup", ".cache", ".npm", "Library/Caches"]
        .iter()
        .map(|c| format!("{HOME}/{c}"))
        .collect();
    assert_eq!(&w[..2], ["/tmp", tmp]);
    assert_eq!(&w[2..], caches.as_slice());
    let tree = format!("{ROOT}/k3xq9a/tree/project");
    let c = confine(ROOT, &tree, &w, &Vec::new(), &vec!["true".to_string()]);
    for (i, path) in w.iter().enumerate() {
        assert!(c.args.iter().any(|a| *a == format!("W{i}={path}")), "{path}");
    }
}

#[test]
fn rows_need_a_known_origin() {
    let mut w = ws("k3xq9a", DIR, None, 0);
    w.origin = None;
    assert!((Ls { all: true }).row(&w, DIR, 0, None).is_none());
    let r: Option<Row> = (Ls { all: false }).row(&ws("k3xq9a", OTHER, None, 0), DIR, 0, None);
    assert!(r.is_none());
}

#[test]
fn a_workspace_belongs_to_its_origin_however_it_is_written() {
    let all = vec![ws("k3xq9a", "/work/project/", Some("parser"), 1)];
    assert_eq!(found(all, DIR, "parser"), "k3xq9a");
    let w = ws("k3xq9a", "/work//project", None, 0);
    assert!((Ls { all: false }).row(&w, DIR, 0, None).is_some());
}

fn making() -> Making {
    Making {
        dir: format!("{ROOT}/k3xq9a"),
        origin: DIR.to_string(),
        tree: format!("{ROOT}/k3xq9a/tree/project"),
        base: format!("{ROOT}/k3xq9a/base"),
    }
}

fn found_repo() -> (String, String) {
    (format!("{DIR}/.git"), format!("{DIR}/.git/objects"))
}

#[test]
fn makes_a_workspace_of_a_repository_with_its_uncommitted_changes() {
    let m = making();
    match make_step(&m, MakeEvent::Started { found: Some(found_repo()) }) {
        MakeAction::QueryHead { query } => assert_eq!(query.args, ["-C", DIR, "rev-parse", "--verify", "--quiet", "HEAD"]),
        _ => panic!("does not ask for the commit"),
    }
    match make_step(&m, MakeEvent::Head { found: found_repo(), ok: true, out: "abc\n".to_string() }) {
        MakeAction::WriteHead { path, contents } => {
            assert_eq!(path, format!("{ROOT}/k3xq9a/head"));
            assert_eq!(contents, "abc\n");
        }
        _ => panic!("does not write the commit"),
    }
    for event in [
        MakeEvent::Head { found: found_repo(), ok: false, out: String::new() },
        MakeEvent::HeadWritten { found: found_repo() },
    ] {
        match make_step(&m, event) {
            MakeAction::CopyIndex { from, to } => {
                assert_eq!(from, format!("{DIR}/.git/index"));
                assert_eq!(to, format!("{ROOT}/k3xq9a/fork.index"));
            }
            _ => panic!("does not copy the index"),
        }
    }
    for (ok, not_found) in [(true, false), (false, true)] {
        match make_step(&m, MakeEvent::IndexCopied { found: found_repo(), ok, not_found }) {
            MakeAction::Snapshot { objects, repo, tree, index } => {
                assert_eq!(objects, format!("{ROOT}/k3xq9a/objects"));
                assert_eq!(repo.dir, format!("{DIR}/.git"));
                assert_eq!(repo.objects, Some((format!("{ROOT}/k3xq9a/objects"), format!("{DIR}/.git/objects"))));
                assert_eq!(tree, DIR);
                assert_eq!(index, format!("{ROOT}/k3xq9a/fork.index"));
            }
            _ => panic!("does not record the files"),
        }
    }
    assert!(matches!(
        make_step(&m, MakeEvent::IndexCopied { found: found_repo(), ok: false, not_found: false }),
        MakeAction::Fail
    ));
    match make_step(&m, MakeEvent::Recorded { fork: "1111".to_string() }) {
        MakeAction::WriteFork { path, contents } => assert_eq!((path, contents), (format!("{ROOT}/k3xq9a/fork"), "1111".to_string())),
        _ => panic!("does not write the tree"),
    }
    match make_step(&m, MakeEvent::ForkWritten) {
        MakeAction::CloneTree { from, to } => assert_eq!((from, to), (DIR.to_string(), m.tree.clone())),
        _ => panic!("does not clone"),
    }
    assert!(matches!(make_step(&m, MakeEvent::TreeCloned), MakeAction::Done));
}

#[test]
fn makes_a_workspace_of_another_directory_through_a_base() {
    let m = making();
    match make_step(&m, MakeEvent::Started { found: None }) {
        MakeAction::CloneBase { from, to } => assert_eq!((from, to), (DIR.to_string(), m.base.clone())),
        _ => panic!("does not clone the base"),
    }
    match make_step(&m, MakeEvent::BaseCloned) {
        MakeAction::CloneTree { from, to } => assert_eq!((from, to), (m.base.clone(), m.tree.clone())),
        _ => panic!("does not clone the tree"),
    }
}

#[test]
fn compares_a_workspace_with_its_fork_or_its_base() {
    let dir = format!("{ROOT}/k3xq9a");
    match changes_plan(&dir, "k3xq9a", Some("1111\n".to_string()), false, false) {
        ChangesPlan::Fork { before, after_index } => {
            assert_eq!(before, "1111");
            assert_eq!(after_index, format!("{dir}/tree.index"));
        }
        _ => panic!("does not use the fork"),
    }
    match changes_plan(&dir, "k3xq9a", None, true, true) {
        ChangesPlan::Base { repo, before_index, after_index } => {
            assert_eq!(repo.dir, format!("{dir}/git"));
            assert!(repo.objects.is_none());
            assert_eq!(before_index, format!("{dir}/base.index"));
            assert_eq!(after_index, format!("{dir}/tree.index"));
        }
        _ => panic!("does not use the base"),
    }
    match changes_plan(&dir, "k3xq9a", None, true, false) {
        ChangesPlan::InitThenBase { command, repo, .. } => {
            assert_eq!(command.args, ["init", "--quiet", "--bare", &format!("{dir}/git")]);
            assert_eq!(repo.dir, format!("{dir}/git"));
        }
        _ => panic!("does not make the repository"),
    }
    match changes_plan(&dir, "k3xq9a (x)", None, false, true) {
        ChangesPlan::Fail { error } => assert_eq!(error.message(), "workspace k3xq9a (x) has nothing to compare it with"),
        _ => panic!("does not fail"),
    }
    assert!(inited(true).is_ok());
    assert_eq!(inited(false).err().unwrap().message(), "git could not make a repository");
}
