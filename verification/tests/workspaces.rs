use hmm::error::Error;
use hmm::name::{check, id_from_entropy, is_commit, valid_name};
use hmm::workspace::Workspace;

const ROOT: &str = "/home/user/.local/share/hmm";

fn workspace(id: &str, origin: Option<&str>, name: Option<&str>, created: Option<i128>) -> Workspace {
    Workspace {
        id: id.to_string(),
        dir: format!("{ROOT}/{id}"),
        origin: origin.map(String::from),
        name: name.map(String::from),
        created,
        running: false,
    }
}

fn listing() -> Vec<Workspace> {
    vec![
        workspace("k3xq9a", Some("/src/project"), Some("parser"), Some(1)),
        workspace("k3mw2d", Some("/src/project"), None, Some(2)),
        workspace("p7mw2d", Some("/src/other"), Some("feature"), Some(3)),
        workspace("zz0001", Some("/src/project"), Some("parser2"), Some(4)),
    ]
}

#[test]
fn finds_a_workspace_by_name() {
    let w = Workspace::find(listing(), "/src/project", "parser").ok().unwrap();
    assert_eq!(w.id, "k3xq9a");
}

#[test]
fn finds_a_workspace_by_id_and_by_a_unique_start_of_an_id() {
    let w = Workspace::find(listing(), "/src/project", "p7mw2d").ok().unwrap();
    assert_eq!(w.id, "p7mw2d");
    let w = Workspace::find(listing(), "/src/project", "k3x").ok().unwrap();
    assert_eq!(w.id, "k3xq9a");
    let w = Workspace::find(listing(), "/src/project", "z").ok().unwrap();
    assert_eq!(w.id, "zz0001");
}

#[test]
fn refuses_the_start_of_more_than_one_id() {
    let e = Workspace::find(listing(), "/src/project", "k3").err().unwrap();
    assert!(matches!(e, Error::Ambiguous { .. }));
    assert_eq!(e.message(), "k3 is the start of more than one workspace's ID");
    assert!(!e.not_found());
}

#[test]
fn names_belong_to_the_directory() {
    let e = Workspace::find(listing(), "/src/project", "feature").err().unwrap();
    assert_eq!(e.message(), "no workspace feature");
    assert!(e.not_found());
    let w = Workspace::find(listing(), "/src/other", "feature").ok().unwrap();
    assert_eq!(w.id, "p7mw2d");
}

#[test]
fn a_name_comes_before_an_id() {
    let list = vec![
        workspace("abcdef", Some("/src/project"), None, Some(1)),
        workspace("k3xq9a", Some("/src/project"), Some("abc"), Some(2)),
    ];
    let w = Workspace::find(list, "/src/project", "abc").ok().unwrap();
    assert_eq!(w.id, "k3xq9a");
}

#[test]
fn latest_is_the_last_of_the_directorys() {
    let w = Workspace::latest(listing(), "/src/project").ok().unwrap();
    assert_eq!(w.id, "zz0001");
    let w = Workspace::latest(listing(), "/src/other").ok().unwrap();
    assert_eq!(w.id, "p7mw2d");
    let e = Workspace::latest(listing(), "/src/none").err().unwrap();
    assert_eq!(e.message(), "/src/none has no workspaces");
    assert!(e.not_found());
}

#[test]
fn pick_without_a_key_is_latest_and_with_one_is_find() {
    let w = Workspace::pick(listing(), "/src/project", None).ok().unwrap();
    assert_eq!(w.id, "zz0001");
    let w = Workspace::pick(listing(), "/src/project", Some("parser")).ok().unwrap();
    assert_eq!(w.id, "k3xq9a");
}

#[test]
fn all_orders_oldest_first_and_keeps_ties_in_order() {
    let list = vec![
        workspace("c", Some("/p"), None, Some(30)),
        workspace("a", Some("/p"), None, None),
        workspace("d", Some("/p"), None, Some(10)),
        workspace("e", Some("/p"), None, Some(30)),
        workspace("b", Some("/p"), None, None),
        workspace("f", Some("/p"), None, Some(-5)),
    ];
    let ids: Vec<String> = Workspace::all(list).into_iter().map(|w| w.id).collect();
    assert_eq!(ids, ["a", "b", "f", "d", "c", "e"]);
    assert!(Workspace::all(Vec::new()).is_empty());
}

#[test]
fn create_checks_the_name_and_makes_the_workspace() {
    let entropy = [0u8, 1, 31, 32, 200, 255];
    let w = Workspace::create(&listing(), ROOT, "/src/project", Some("lexer"), &entropy).ok().unwrap();
    assert_eq!(w.id, "01z08z");
    assert_eq!(w.dir, format!("{ROOT}/01z08z"));
    assert_eq!(w.origin.as_deref(), Some("/src/project"));
    assert_eq!(w.name.as_deref(), Some("lexer"));
    let e = Workspace::create(&listing(), ROOT, "/src/project", Some("parser"), &entropy).err().unwrap();
    assert_eq!(e.message(), "/src/project already has a workspace named parser");
    let w = Workspace::create(&listing(), ROOT, "/src/elsewhere", Some("parser"), &entropy).ok().unwrap();
    assert_eq!(w.name.as_deref(), Some("parser"));
    let e = Workspace::create(&listing(), ROOT, "/src/project", Some("a b"), &entropy).err().unwrap();
    assert_eq!(e.message(), "a workspace's name is letters, digits, '-', '_' and '.': a b");
    let w = Workspace::create(&listing(), ROOT, "/src/project", None, &entropy).ok().unwrap();
    assert!(w.name.is_none());
}

#[test]
fn names_are_letters_digits_dashes_underscores_and_dots() {
    for name in ["a/b", "a b", "", "é", "a:b", "-a"] {
        assert!(!valid_name(name), "{name}");
        assert!(check(name).is_err());
    }
    for name in ["Aa0-_.", "parser", "a-", "."] {
        assert!(valid_name(name), "{name}");
        assert!(check(name).is_ok());
    }
}

#[test]
fn ids_are_six_letters_of_the_alphabet() {
    let id = id_from_entropy(&[0, 8, 16, 24, 18, 19]);
    assert_eq!(id, "08grjk");
    for b in 0..=255u8 {
        let id = id_from_entropy(&[b; 6]);
        assert_eq!(id.len(), 6);
        assert!(id.bytes().all(|c| b"0123456789abcdefghjkmnpqrstvwxyz".contains(&c)));
        assert!(!id.contains(['i', 'l', 'o', 'u']));
    }
}

#[test]
fn commit_ids_are_40_or_64_hexadecimal_digits() {
    assert!(is_commit(&"a".repeat(40)));
    assert!(is_commit(&"0123456789abcdefABCDEF".repeat(3)[..64]));
    assert!(!is_commit(&"a".repeat(39)));
    assert!(!is_commit(&"g".repeat(40)));
    assert!(!is_commit(""));
}

#[test]
fn label_tree_and_base() {
    let w = workspace("k3xq9a", Some("/src/project"), Some("parser"), None);
    assert_eq!(w.label(), "k3xq9a (parser)");
    assert_eq!(w.tree().unwrap(), format!("{ROOT}/k3xq9a/tree/project"));
    assert_eq!(w.base(), format!("{ROOT}/k3xq9a/base"));
    let w = workspace("p7mw2d", Some("/"), None, None);
    assert_eq!(w.label(), "p7mw2d");
    assert_eq!(w.tree().unwrap(), format!("{ROOT}/p7mw2d/tree/root"));
    let w = workspace("p7mw2d", None, None, Some(5));
    assert!(w.tree().is_none());
    assert_eq!(w.created(), Some(5));
    assert!(!w.running());
}
