use hmm::cmd::ls::{Ls, Row, age, short, table};
use hmm::error::Error;
use hmm::git::{git, head, head_query, toplevel, toplevel_lines, toplevel_query, Changes, Repo};
use hmm::invocation::Invocation;
use hmm::landlock::{grant, granted, handled, Grant, Kind, FILE, READ, TRUNCATE, WRITE};
use hmm::components::{components, same_path, tilde};
use hmm::path::{ancestors, canonical, file_name, join, within};
use hmm::sandbox::profile;
use hmm::text::{decimal_string, lines, same, split_on, starts_with, trim};
use hmm::workspace::Workspace;

#[test]
fn short_counts_the_largest_unit() {
    assert_eq!(short(0), "0s");
    assert_eq!(short(42), "42s");
    assert_eq!(short(59), "59s");
    assert_eq!(short(60), "1m");
    assert_eq!(short(300), "5m");
    assert_eq!(short(3599), "59m");
    assert_eq!(short(3600), "1h");
    assert_eq!(short(3 * 3600 + 59), "3h");
    assert_eq!(short(86399), "23h");
    assert_eq!(short(86400), "1d");
    assert_eq!(short(2 * 86400 + 5), "2d");
    assert_eq!(short(u64::MAX), "213503982334601d");
}

#[test]
fn age_is_how_long_ago_a_workspace_was_made() {
    let s = 1_000_000_000i128;
    assert_eq!(age(Some(10 * s), 10 * s + 2 * 3600 * s + 5), "2h");
    assert_eq!(age(Some(10 * s), 10 * s + 999_999_999), "0s");
    assert_eq!(age(Some(10 * s), 9 * s), "");
    assert_eq!(age(None, 9 * s), "");
    assert_eq!(age(Some(-5 * s), 5 * s), "10s");
}

#[test]
fn decimal_numbers() {
    assert_eq!(decimal_string(0), "0");
    assert_eq!(decimal_string(7), "7");
    assert_eq!(decimal_string(10), "10");
    assert_eq!(decimal_string(1234567890), "1234567890");
    assert_eq!(decimal_string(u64::MAX), u64::MAX.to_string());
}

#[test]
fn tilde_writes_the_home_directory() {
    assert_eq!(tilde("/home/user/src/dwim", Some("/home/user")), "~/src/dwim");
    assert_eq!(tilde("/home/user", Some("/home/user")), "~");
    assert_eq!(tilde("/home/user2/src", Some("/home/user")), "/home/user2/src");
    assert_eq!(tilde("/srv/x", Some("/home/user")), "/srv/x");
    assert_eq!(tilde("/srv/x", Some("/")), "~/srv/x");
    assert_eq!(tilde("/srv/x", None), "/srv/x");
    assert_eq!(tilde("/home/user/x", Some("home/user")), "/home/user/x");
}

#[test]
fn tilde_strips_the_home_directory_by_components() {
    assert_eq!(tilde("/h/x", Some("/h/")), "~/x");
    assert_eq!(tilde("/h//x", Some("/h")), "~/x");
    assert_eq!(tilde("/h/./x/", Some("/h")), "~/x");
    assert_eq!(tilde("/h/x//y", Some("/h")), "~/x//y");
    assert_eq!(tilde("/h", Some("/h/")), "~");
    assert_eq!(tilde("/hx", Some("/h")), "/hx");
    assert_eq!(tilde("h/x", Some("/h")), "h/x");
    assert_eq!(tilde("./x", Some(".")), "~/x");
    assert_eq!(tilde("x/", Some("")), "~/x");
    assert_eq!(tilde("/h/", Some("")), "/h");
    assert_eq!(tilde("", Some("")), "~");
    assert_eq!(tilde("/home/user/.", Some("/home/user")), "~");
}

#[test]
fn paths_are_compared_by_components() {
    assert_eq!(components("/x//y/./z/"), ["/", "x", "y", "z"]);
    assert_eq!(components("./a"), [".", "a"]);
    assert_eq!(components("a/.."), ["a", ".."]);
    assert!(same_path("/x/", "/x"));
    assert!(same_path("/x//y", "/x/./y"));
    assert!(!same_path("/x", "x"));
    assert!(!same_path("/x/y", "/x"));
}

#[test]
fn rows_list_the_directorys_workspaces() {
    let w = Workspace {
        id: "k3xq9a".to_string(),
        dir: "/r/k3xq9a".to_string(),
        origin: Some("/home/user/src/dwim".to_string()),
        name: Some("parser".to_string()),
        created: Some(0),
        running: true,
    };
    let now = 2 * 3600 * 1_000_000_000i128;
    let row = Ls { all: false }.row(&w, "/home/user/src/dwim", now, Some("/home/user")).unwrap();
    assert_eq!((row.id.as_str(), row.name.as_str(), row.state.as_str(), row.age.as_str(), row.origin.as_str()), ("k3xq9a", "parser", "running", "2h", "~/src/dwim"));
    assert!(Ls { all: false }.row(&w, "/elsewhere", now, None).is_none());
    assert!(Ls { all: true }.row(&w, "/elsewhere", now, None).is_some());
    let unknown = Workspace { origin: None, ..w };
    assert!(Ls { all: true }.row(&unknown, "/elsewhere", now, None).is_none());
}

fn row(cells: [&str; 5]) -> Row {
    Row {
        id: cells[0].to_string(),
        name: cells[1].to_string(),
        state: cells[2].to_string(),
        age: cells[3].to_string(),
        origin: cells[4].to_string(),
    }
}

#[test]
fn table_aligns_the_columns() {
    let t = table(vec![
        row(["k3xq9a", "parser", "done", "2h", "~/src/penberg/dwim"]),
        row(["p7mw2d", "-", "running", "5m", "~/src/penberg/dwim"]),
    ]);
    assert_eq!(
        t,
        "ID      NAME    STATE    AGE  ORIGIN\n\
         k3xq9a  parser  done      2h  ~/src/penberg/dwim\n\
         p7mw2d  -       running   5m  ~/src/penberg/dwim\n"
    );
    assert_eq!(table(Vec::new()), "");
    let t = table(vec![row(["é", "-", "done", "10d", "/"])]);
    assert_eq!(t, "ID  NAME  STATE  AGE  ORIGIN\né   -     done   10d  /\n");
}

#[test]
fn strings_lines_and_trimming() {
    assert!(starts_with("abc", "ab"));
    assert!(!starts_with("ab", "abc"));
    assert!(same("x", "x"));
    assert!(!same("x", "y"));
    assert_eq!(split_on("a//b", '/'), ["a", "", "b"]);
    assert_eq!(split_on("", '/'), [""]);
    assert_eq!(lines("a\r\nb\n\nc"), ["a", "b", "", "c"]);
    assert_eq!(lines("a\n"), ["a"]);
    assert_eq!(lines("a\r"), ["a\r"]);
    assert!(lines("").is_empty());
    assert_eq!(trim("  \t abc d \n"), "abc d");
    assert_eq!(trim(" \u{3000} "), "");
    assert_eq!(head("0123abc\n"), "0123abc");
}

#[test]
fn paths_join_name_and_nest() {
    assert_eq!(join("/a", "b"), "/a/b");
    assert_eq!(join("/a/", "b"), "/a/b");
    assert_eq!(join("", "b"), "b");
    assert_eq!(join("/a", "/b"), "/b");
    assert_eq!(join("a", ""), "a/");
    assert_eq!(file_name("/a/b").as_deref(), Some("b"));
    assert_eq!(file_name("/a/b/").as_deref(), Some("b"));
    assert_eq!(file_name("/a/b/.").as_deref(), Some("b"));
    assert_eq!(file_name("/a/.."), None);
    assert_eq!(file_name("/"), None);
    assert_eq!(file_name("."), None);
    assert_eq!(file_name("x").as_deref(), Some("x"));
    assert!(canonical("/a/b"));
    assert!(canonical("/"));
    for p in ["", "a", "/a/", "/a//b", "/a/./b", "/a/..", "/."] {
        assert!(!canonical(p), "{p}");
    }
    assert!(canonical("/a/.b/..c"));
    assert!(within("/a/b", "/a"));
    assert!(within("/a", "/a"));
    assert!(within("/a", "/"));
    assert!(!within("/ab", "/a"));
    assert_eq!(ancestors("/a/b/c"), ["/a/b", "/a", "/"]);
    assert!(ancestors("/").is_empty());
}

#[test]
fn profile_names_its_paths_as_parameters() {
    let (p, ps) = profile("/r/w/tree/x", &vec!["/tmp".to_string()], &vec![]);
    assert_eq!(
        p,
        "(version 1)\n(allow default)\n(deny file-write*)\n(allow file-write* (subpath \"/dev\") (subpath (param \"W0\")))\n(allow file-read* file-read-data file-write* (subpath (param \"CLONE\")))\n"
    );
    assert_eq!(ps, ["W0=/tmp", "CLONE=/r/w/tree/x"]);
    let (p, ps) = profile("/r/x", &vec![], &vec!["/s".to_string(), "/r".to_string()]);
    assert_eq!(
        p,
        "(version 1)\n(allow default)\n(deny file-write*)\n(allow file-write* (subpath \"/dev\"))\n(deny file-read-data file-write* (subpath (param \"H0\")) (subpath (param \"H1\")))\n(allow file-read-data (literal (param \"A0\")) (literal (param \"A1\")))\n(allow file-read* file-read-data file-write* (subpath (param \"CLONE\")))\n"
    );
    assert_eq!(ps, ["H0=/s", "H1=/r", "A0=/r", "A1=/", "CLONE=/r/x"]);
}

#[test]
fn git_runs_free_of_variables_that_point_elsewhere() {
    let g = git();
    assert_eq!(g.program, "git");
    assert_eq!(g.unset, ["GIT_DIR", "GIT_WORK_TREE", "GIT_INDEX_FILE", "GIT_OBJECT_DIRECTORY", "GIT_ALTERNATE_OBJECT_DIRECTORIES", "GIT_COMMON_DIR"]);
    let q = toplevel_query("/p");
    assert_eq!(q.args, ["-C", "/p", "rev-parse", "--path-format=absolute", "--show-toplevel", "--git-dir", "--git-path", "objects"]);
    assert_eq!(head_query("/p").args, ["-C", "/p", "rev-parse", "--verify", "--quiet", "HEAD"]);
    let (top, g, o) = toplevel_lines(true, "/p\n/p/.git\n/p/.git/objects\n").unwrap();
    assert_eq!((top.as_str(), g.as_str(), o.as_str()), ("/p", "/p/.git", "/p/.git/objects"));
    assert!(toplevel_lines(false, "/p\n/p/.git\n/p/.git/objects\n").is_none());
    assert!(toplevel_lines(true, "/p\n").is_none());
    let out = format!("/p\n{g}\n{o}\n");
    assert_eq!(toplevel("/p", true, &out, Some("/p".to_string())), Some(("/p/.git".to_string(), "/p/.git/objects".to_string())));
    assert!(toplevel("/p/sub", true, &out, Some("/p".to_string())).is_none());
    assert!(toplevel("/p", false, &out, Some("/p".to_string())).is_none());
    assert!(toplevel("/p", true, "/p\n/p/.git\n", Some("/p".to_string())).is_none());
    assert!(toplevel("/p", true, &out, None).is_none());
}

#[test]
fn changes_use_the_origins_repository_while_it_is_one() {
    let r = Changes::origin_repo("/r/w", "/p", Some(("/p/.git".to_string(), "/p/.git/objects".to_string()))).ok().unwrap();
    assert_eq!(r.dir, "/p/.git");
    assert_eq!(r.objects, Some(("/r/w/objects".to_string(), "/p/.git/objects".to_string())));
    let e = Changes::origin_repo("/r/w", "/p", None).err().unwrap();
    assert_eq!(e.message(), "/p is no longer a git repository");
    let c = Repo::own("/r/w").git();
    assert_eq!(c.args, ["--git-dir", "/r/w/git"]);
    assert!(c.set.is_empty());
}

#[test]
fn invocations_collect_arguments_and_environment() {
    let mut c = Invocation::new("x");
    c.arg("a");
    c.args(&["b", "c"]);
    c.env_remove("K");
    c.env("K", "v");
    c.current_dir("/d");
    assert_eq!(c.args, ["a", "b", "c"]);
    assert_eq!(c.unset, ["K"]);
    assert_eq!(c.set, [("K".to_string(), "v".to_string())]);
    assert_eq!(c.dir.as_deref(), Some("/d"));
}

#[test]
fn landlock_grants_only_what_is_asked_and_handled() {
    assert!(matches!(handled(1), Err(Error::NoLandlock)));
    assert_eq!(handled(2).ok().unwrap(), (READ | WRITE) & !TRUNCATE);
    assert_eq!(handled(3).ok().unwrap(), READ | WRITE);
    let h = READ | WRITE;
    assert_eq!(granted(Kind::Directory, WRITE, h), WRITE);
    assert_eq!(granted(Kind::SymbolicLink, WRITE, h), 0);
    assert_eq!(granted(Kind::Other, READ | WRITE, h), (READ | WRITE) & FILE);
    assert_eq!(READ, 0b101);
    assert_eq!(WRITE, (1 << 1) | (0b1111_1111_1 << 4) | (1 << 13) | (1 << 14));
}

#[test]
fn landlock_descends_around_hidden_paths() {
    let hidden = vec!["/home/u/.ssh".to_string(), "/r".to_string()];
    assert!(matches!(grant("/home/u/.ssh", &hidden), Grant::Nothing));
    assert!(matches!(grant("/home/u/.ssh/id", &hidden), Grant::Nothing));
    assert!(matches!(grant("/home/u", &hidden), Grant::Each));
    assert!(matches!(grant("/", &hidden), Grant::Each));
    assert!(matches!(grant("/usr", &hidden), Grant::Whole));
    assert!(matches!(grant("/home/u/.sshx", &hidden), Grant::Whole));
}

#[test]
fn errors_say_what_went_wrong() {
    let cases = [
        (Error::NameTaken { origin: "/p".to_string(), name: "x".to_string() }, "/p already has a workspace named x"),
        (Error::NothingToCompare { label: "k3".to_string() }, "workspace k3 has nothing to compare it with"),
        (Error::GitInit, "git could not make a repository"),
        (Error::GitPatch, "git could not make a patch"),
        (Error::NotTopLevel { label: "k3".to_string() }, "workspace k3 was not made from the top of a git repository: hmm apply applies its changes"),
        (Error::Copying { origin: "/p".to_string(), reason: "r".to_string() }, "copying /p: r"),
        (Error::NoLandlock, "the sandbox needs Landlock, in Linux 5.19 or later, enabled"),
    ];
    for (e, m) in cases {
        assert_eq!(e.message(), m);
        assert!(!e.not_found());
    }
}
