//! Workspaces: what `hmm` knows of each, and how a user refers to one.
//!
//! A workspace is a directory under the root named by a random ID, holding a
//! clone of a directory, its origin, which the command runs in and changes; a
//! record of what the origin was when the workspace was made; an `origin`
//! file with the origin's path; and, if the workspace was given one, a `name`
//! file with its name. The command running in the workspace holds a lock on
//! the `origin` file.
//!
//! The type here holds what was read of a workspace's directory when it was
//! listed; the logic that finds, names and orders workspaces works on it.

use vstd::prelude::*;
use vstd::string::*;

use crate::components::{components_of, same_path, same_path_of};
use crate::error::{Error, ErrorView};
use crate::name::{check, id_from_entropy, id_of, is_valid_name, ID_LEN};
use crate::path::{file_name, file_name_of, join, joined};
use crate::text::{is_prefix, same, starts_with};

verus! {

/// A workspace, as read from its directory under the root.
pub struct Workspace {
    /// Its ID: the name of its directory.
    pub id: String,
    /// Its directory.
    pub dir: String,
    /// The directory it was cloned from, if its `origin` file could be read:
    /// one without is still being created.
    pub origin: Option<String>,
    /// The name it was given, if any.
    pub name: Option<String>,
    /// When it was created, in nanoseconds since the Unix epoch, if the file
    /// system says.
    pub created: Option<i128>,
    /// Whether a command is running in it: whether its lock was held when it
    /// was listed.
    pub running: bool,
}

/// A workspace, its text taken by its characters.
pub struct WorkspaceView {
    pub id: Seq<char>,
    pub dir: Seq<char>,
    pub origin: Option<Seq<char>>,
    pub name: Option<Seq<char>>,
    pub created: Option<i128>,
    pub running: bool,
}

/// An optional string taken by its characters.
pub open spec fn opt_view(s: Option<String>) -> Option<Seq<char>> {
    match s {
        Some(s) => Some(s@),
        None => None,
    }
}

impl View for Workspace {
    type V = WorkspaceView;

    open spec fn view(&self) -> WorkspaceView {
        WorkspaceView {
            id: self.id@,
            dir: self.dir@,
            origin: opt_view(self.origin),
            name: opt_view(self.name),
            created: self.created,
            running: self.running,
        }
    }
}

/// The workspaces of `all`, taken by their views.
pub open spec fn views(all: Seq<Workspace>) -> Seq<WorkspaceView> {
    all.map_values(|w: Workspace| w@)
}

/// Whether `w` is a workspace of `origin`: whether its origin is the same
/// path, component by component.
pub open spec fn is_of(w: WorkspaceView, origin: Seq<char>) -> bool {
    w.origin matches Some(o) && same_path_of(o, origin)
}

/// Whether `w` is a workspace of `origin` named `key`.
pub open spec fn is_named(w: WorkspaceView, origin: Seq<char>, key: Seq<char>) -> bool {
    is_of(w, origin) && w.name == Some(key)
}

/// Whether `w`'s ID starts with `key`.
pub open spec fn id_starts(w: WorkspaceView, key: Seq<char>) -> bool {
    is_prefix(key, w.id)
}

/// Which of `ws` the key `key` refers to, from `origin`: the last of
/// `origin`'s workspaces named `key` if there is one; otherwise the one
/// workspace whose ID starts with `key`, if exactly one does.
pub open spec fn find_of(ws: Seq<WorkspaceView>, origin: Seq<char>, key: Seq<char>) -> Result<
    int,
    ErrorView,
> {
    if exists|i: int| 0 <= i < ws.len() && #[trigger] is_named(ws[i], origin, key) {
        Ok(
            choose|i: int|
                0 <= i < ws.len() && #[trigger] is_named(ws[i], origin, key) && forall|j: int|
                    i < j < ws.len() ==> !#[trigger] is_named(ws[j], origin, key),
        )
    } else if exists|i: int| 0 <= i < ws.len() && #[trigger] id_starts(ws[i], key) {
        let i = choose|i: int| 0 <= i < ws.len() && #[trigger] id_starts(ws[i], key);
        if forall|j: int| 0 <= j < ws.len() && #[trigger] id_starts(ws[j], key) ==> j == i {
            Ok(i)
        } else {
            Err(ErrorView::Ambiguous { key })
        }
    } else {
        Err(ErrorView::NotFound { key })
    }
}

/// The last of `ws` that is a workspace of `origin`.
pub open spec fn latest_of(ws: Seq<WorkspaceView>, origin: Seq<char>) -> Result<int, ErrorView> {
    if exists|i: int| 0 <= i < ws.len() && #[trigger] is_of(ws[i], origin) {
        Ok(
            choose|i: int|
                0 <= i < ws.len() && #[trigger] is_of(ws[i], origin) && forall|j: int|
                    i < j < ws.len() ==> !#[trigger] is_of(ws[j], origin),
        )
    } else {
        Err(ErrorView::NoWorkspaces { origin })
    }
}

/// Which of `ws` `key` refers to from `origin`, or the latest of `origin`'s
/// if there is no key.
pub open spec fn pick_of(ws: Seq<WorkspaceView>, origin: Seq<char>, key: Option<Seq<char>>) -> Result<
    int,
    ErrorView,
> {
    match key {
        Some(k) => find_of(ws, origin, k),
        None => latest_of(ws, origin),
    }
}

/// `r` is what `spec` says of `ws`: the workspace at the index it gives, or
/// the error it gives.
pub open spec fn resolves(r: Result<Workspace, Error>, ws: Seq<WorkspaceView>, spec: Result<int, ErrorView>) -> bool {
    match spec {
        Ok(i) => 0 <= i < ws.len() && (r matches Ok(w) && w@ == ws[i]),
        Err(e) => r matches Err(err) && err@ == e,
    }
}

/// Whether `a` is no later than `b`, as `Option<SystemTime>` orders them:
/// an unknown time first.
pub open spec fn created_le(a: Option<i128>, b: Option<i128>) -> bool {
    match (a, b) {
        (None, _) => true,
        (Some(_), None) => false,
        (Some(x), Some(y)) => x <= y,
    }
}

fn created_le_exec(a: Option<i128>, b: Option<i128>) -> (r: bool)
    ensures
        r == created_le(a, b),
{
    match (a, b) {
        (None, _) => true,
        (Some(_), None) => false,
        (Some(x), Some(y)) => x <= y,
    }
}

/// Whether `ws` is ordered oldest first.
pub open spec fn oldest_first(ws: Seq<WorkspaceView>) -> bool {
    forall|i: int, j: int|
        0 <= i < j < ws.len() ==> created_le(#[trigger] ws[i].created, #[trigger] ws[j].created)
}

/// Whether `p` reorders `n` things: each of `0..n` once.
pub open spec fn is_permutation(p: Seq<int>, n: nat) -> bool {
    &&& p.len() == n
    &&& forall|k: int| 0 <= k < n ==> 0 <= #[trigger] p[k] < n
    &&& forall|a: int, b: int| 0 <= a < b < n ==> #[trigger] p[a] != #[trigger] p[b]
}

/// Whether `out` is `inp` sorted oldest first by a stable sort, which keeps
/// workspaces created at the same time in the order they came: `p` takes each
/// place in `out` to the place in `inp` its workspace came from.
pub open spec fn is_stable_sort_by(out: Seq<WorkspaceView>, inp: Seq<WorkspaceView>, p: Seq<int>) -> bool {
    &&& is_permutation(p, inp.len())
    &&& out.len() == inp.len()
    &&& forall|k: int| 0 <= k < out.len() ==> #[trigger] out[k] == inp[p[k]]
    &&& oldest_first(out)
    &&& forall|a: int, b: int|
        0 <= a < b < out.len() && out[a].created == out[b].created ==> #[trigger] p[a]
            < #[trigger] p[b]
}


/// What `hmm` calls a workspace: its ID, and its name in brackets if it has
/// one.
pub open spec fn label_of(w: WorkspaceView) -> Seq<char> {
    match w.name {
        Some(n) => w.id + " ("@ + n + ")"@,
        None => w.id,
    }
}

/// The clone the command runs in, named as the directory it was cloned from
/// (`root` if that has no name), under `tree` in the workspace's directory;
/// none if the origin is unknown.
pub open spec fn tree_of(w: WorkspaceView) -> Option<Seq<char>> {
    match w.origin {
        Some(o) => Some(
            joined(
                joined(w.dir, "tree"@),
                match file_name_of(o) {
                    Some(f) => f,
                    None => "root"@,
                },
            ),
        ),
        None => None,
    }
}

/// What `create` makes of the workspaces `ws` under `root` for a clone of
/// `origin`, named `name` if one is given, with the ID that `entropy` makes:
/// an error if the name cannot name a workspace or one of `origin`'s
/// workspaces already has it, and otherwise the new workspace.
pub open spec fn create_of(
    ws: Seq<WorkspaceView>,
    root: Seq<char>,
    origin: Seq<char>,
    name: Option<Seq<char>>,
    entropy: Seq<u8>,
) -> Result<WorkspaceView, ErrorView> {
    match name {
        Some(n) if !is_valid_name(n) => Err(ErrorView::InvalidName { name: n }),
        Some(n) if exists|i: int| 0 <= i < ws.len() && #[trigger] is_named(ws[i], origin, n) => Err(
            ErrorView::NameTaken { origin, name: n },
        ),
        _ => Ok(
            WorkspaceView {
                id: id_of(entropy),
                dir: joined(root, id_of(entropy)),
                origin: Some(origin),
                name,
                created: None,
                running: false,
            },
        ),
    }
}

impl Workspace {
    /// Whether this is a workspace of `origin`.
    fn of(&self, origin: &str) -> (b: bool)
        ensures
            b == is_of(self@, origin@),
    {
        match &self.origin {
            Some(o) => same_path(o.as_str(), origin),
            None => false,
        }
    }

    /// Whether this is a workspace of `origin` named `key`.
    fn named(&self, origin: &str, key: &str) -> (b: bool)
        ensures
            b == is_named(self@, origin@, key@),
    {
        match &self.name {
            Some(n) => same(n.as_str(), key) && self.of(origin),
            None => false,
        }
    }

    /// Finds the workspace `key` refers to among `all`: one of `origin`'s
    /// workspaces by name, or any workspace by ID or the start of an ID that
    /// no other shares.
    pub fn find(all: Vec<Workspace>, origin: &str, key: &str) -> (r: Result<Workspace, Error>)
        ensures
            resolves(r, views(all@), find_of(views(all@), origin@, key@)),
    {
        let ghost ws = views(all@);
        let mut list = all;
        let n = list.len();
        let mut j: usize = n;
        while j > 0
            invariant
                views(list@) == ws,
                ws == views(all@),
                n == ws.len(),
                j <= n,
                forall|k: int| j <= k < n ==> !#[trigger] is_named(ws[k], origin@, key@),
            decreases j,
        {
            if list[j - 1].named(origin, key) {
                let ghost i = (j - 1) as int;
                proof {
                    assert(is_named(ws[i], origin@, key@));
                    let c = choose|c: int|
                        0 <= c < ws.len() && #[trigger] is_named(ws[c], origin@, key@) && forall|
                            k: int,
                        | c < k < ws.len() ==> !#[trigger] is_named(ws[k], origin@, key@);
                    assert(c == i) by {
                        if c < i {
                            assert(!is_named(ws[i], origin@, key@));
                        }
                        if c > i {
                            assert(!is_named(ws[c], origin@, key@));
                        }
                    }
                    assert(find_of(ws, origin@, key@) == Ok::<int, ErrorView>(i));
                }
                let w = list.remove(j - 1);
                assert(w@ == ws[i]);
                return Ok(w);
            }
            j = j - 1;
        }
        let mut found: Option<usize> = None;
        let mut more = false;
        let mut k: usize = 0;
        while k < n
            invariant
                views(list@) == ws,
                n == ws.len(),
                k <= n,
                forall|i: int| 0 <= i < n ==> !#[trigger] is_named(ws[i], origin@, key@),
                found is None ==> !more && forall|i: int|
                    0 <= i < k ==> !#[trigger] id_starts(ws[i], key@),
                found matches Some(f) ==> f < k && id_starts(ws[f as int], key@),
                found is Some && !more ==> forall|i: int|
                    0 <= i < k && #[trigger] id_starts(ws[i], key@) ==> i == found->0,
                more ==> exists|a: int, b: int|
                    0 <= a < b < n && #[trigger] id_starts(ws[a], key@) && #[trigger] id_starts(
                        ws[b],
                        key@,
                    ),
            decreases n - k,
        {
            if starts_with(list[k].id.as_str(), key) {
                proof {
                    assert(id_starts(ws[k as int], key@));
                }
                match found {
                    None => {
                        found = Some(k);
                    },
                    Some(f) => {
                        proof {
                            assert(id_starts(ws[f as int], key@));
                        }
                        more = true;
                    },
                }
            }
            k = k + 1;
        }
        match found {
            None => {
                proof {
                    assert(!exists|i: int| 0 <= i < ws.len() && #[trigger] is_named(ws[i], origin@, key@));
                    assert(!exists|i: int| 0 <= i < ws.len() && #[trigger] id_starts(ws[i], key@));
                }
                Err(Error::NotFound { key: key.to_owned() })
            },
            Some(f) => {
                proof {
                    assert(!exists|i: int| 0 <= i < ws.len() && #[trigger] is_named(ws[i], origin@, key@));
                    assert(id_starts(ws[f as int], key@));
                }
                if more {
                    proof {
                        let c = choose|c: int| 0 <= c < ws.len() && #[trigger] id_starts(ws[c], key@);
                        let (a, b) = choose|a: int, b: int|
                            0 <= a < b < n && #[trigger] id_starts(ws[a], key@) && #[trigger] id_starts(
                                ws[b],
                                key@,
                            );
                        if a != c {
                            assert(!(forall|j: int| 0 <= j < ws.len() && #[trigger] id_starts(ws[j], key@) ==> j == c));
                        } else {
                            assert(!(forall|j: int| 0 <= j < ws.len() && #[trigger] id_starts(ws[j], key@) ==> j == c)) by {
                                assert(id_starts(ws[b], key@));
                            }
                        }
                    }
                    Err(Error::Ambiguous { key: key.to_owned() })
                } else {
                    proof {
                        let c = choose|c: int| 0 <= c < ws.len() && #[trigger] id_starts(ws[c], key@);
                        assert(c == f);
                    }
                    let w = list.remove(f);
                    assert(w@ == ws[f as int]);
                    Ok(w)
                }
            },
        }
    }

    /// The latest of `origin`'s workspaces among `all`, which are oldest
    /// first.
    pub fn latest(all: Vec<Workspace>, origin: &str) -> (r: Result<Workspace, Error>)
        ensures
            resolves(r, views(all@), latest_of(views(all@), origin@)),
    {
        let ghost ws = views(all@);
        let mut list = all;
        let n = list.len();
        let mut j: usize = n;
        while j > 0
            invariant
                views(list@) == ws,
                ws == views(all@),
                n == ws.len(),
                j <= n,
                forall|k: int| j <= k < n ==> !#[trigger] is_of(ws[k], origin@),
            decreases j,
        {
            if list[j - 1].of(origin) {
                let ghost i = (j - 1) as int;
                proof {
                    assert(is_of(ws[i], origin@));
                    let c = choose|c: int|
                        0 <= c < ws.len() && #[trigger] is_of(ws[c], origin@) && forall|k: int|
                            c < k < ws.len() ==> !#[trigger] is_of(ws[k], origin@);
                    assert(c == i) by {
                        if c < i {
                            assert(!is_of(ws[i], origin@));
                        }
                        if c > i {
                            assert(!is_of(ws[c], origin@));
                        }
                    }
                }
                let w = list.remove(j - 1);
                assert(w@ == ws[i]);
                return Ok(w);
            }
            j = j - 1;
        }
        proof {
            assert(!exists|i: int| 0 <= i < ws.len() && #[trigger] is_of(ws[i], origin@));
        }
        Err(Error::NoWorkspaces { origin: origin.to_owned() })
    }

    /// Makes a workspace under `root` for a clone of `origin`, without the
    /// clone, named `name` if one is given, with the ID that the random bytes
    /// `entropy` make, among the workspaces `all` there are.
    pub fn create(
        all: &Vec<Workspace>,
        root: &str,
        origin: &str,
        name: Option<&str>,
        entropy: &[u8; ID_LEN],
    ) -> (r: Result<Workspace, Error>)
        ensures
            match create_of(
                views(all@),
                root@,
                origin@,
                match name {
                    Some(n) => Some(n@),
                    None => None,
                },
                entropy@,
            ) {
                Ok(v) => r matches Ok(w) && w@ == v,
                Err(e) => r matches Err(x) && x@ == e,
            },
    {
        let ghost ws = views(all@);
        if let Some(n) = name {
            check(n)?;
            let mut i: usize = 0;
            while i < all.len()
                invariant
                    ws == views(all@),
                    name == Some(n),
                    is_valid_name(n@),
                    i <= all@.len(),
                    forall|k: int| 0 <= k < i ==> !#[trigger] is_named(ws[k], origin@, n@),
                decreases all@.len() - i,
            {
                if all[i].named(origin, n) {
                    assert(is_named(ws[i as int], origin@, n@));
                    return Err(Error::NameTaken { origin: origin.to_owned(), name: n.to_owned() });
                }
                i = i + 1;
            }
        }
        let id = id_from_entropy(entropy);
        let dir = join(root, id.as_str());
        Ok(
            Workspace {
                id,
                dir,
                origin: Some(origin.to_owned()),
                name: match name {
                    Some(n) => Some(n.to_owned()),
                    None => None,
                },
                created: None,
                running: false,
            },
        )
    }

    /// Every workspace of `listed`, oldest first: workspaces created at the
    /// same time, or whose time is unknown, stay in the order listed.
    pub fn all(listed: Vec<Workspace>) -> (r: Vec<Workspace>)
        ensures
            exists|p: Seq<int>| is_stable_sort_by(views(r@), views(listed@), p),
    {
        let ghost inp = views(listed@);
        let mut rest = listed;
        let mut out: Vec<Workspace> = Vec::new();
        let ghost mut p: Seq<int> = Seq::empty();
        let n = rest.len();
        let mut i: usize = 0;
        while i < n
            invariant
                inp.len() == n,
                i <= n,
                views(rest@) == inp.skip(i as int),
                out@.len() == i,
                p.len() == i,
                forall|k: int| 0 <= k < i ==> 0 <= #[trigger] p[k] < i,
                forall|a: int, b: int| 0 <= a < b < i ==> #[trigger] p[a] != #[trigger] p[b],
                forall|k: int| 0 <= k < i ==> #[trigger] out@[k]@ == inp[p[k]],
                oldest_first(views(out@)),
                forall|a: int, b: int|
                    0 <= a < b < i && out@[a]@.created == out@[b]@.created ==> #[trigger] p[a]
                        < #[trigger] p[b],
            decreases n - i,
        {
            proof {
                assert(views(rest@).len() == rest@.len());
                assert(inp.skip(i as int).len() == n - i);
                assert(views(rest@)[0] == rest@[0]@);
                assert(inp.skip(i as int)[0] == inp[i as int]);
            }
            let ghost old_rest = rest@;
            let w = rest.remove(0);
            proof {
                assert(w@ == inp[i as int]);
                assert forall|k: int| 0 <= k < views(rest@).len() implies #[trigger] views(rest@)[k] == inp.skip(i + 1)[k] by {
                    assert(rest@[k] == old_rest[k + 1]);
                    assert(views(old_rest)[k + 1] == inp.skip(i as int)[k + 1]);
                }
                assert(views(rest@) =~= inp.skip(i + 1));
            }
            let mut pos: usize = 0;
            while pos < out.len() && created_le_exec(out[pos].created, w.created)
                invariant
                    pos <= out@.len(),
                    forall|k: int| 0 <= k < pos ==> created_le(#[trigger] out@[k]@.created, w@.created),
                decreases out@.len() - pos,
            {
                pos = pos + 1;
            }
            let ghost before = views(out@);
            let ghost old_p = p;
            proof {
                assert forall|k: int| pos <= k < before.len() implies !created_le(#[trigger] before[k].created, w@.created) by {
                    assert(!created_le(before[pos as int].created, w@.created));
                    assert(created_le(before[pos as int].created, before[k].created));
                }
                assert forall|k: int| 0 <= k < pos implies created_le(#[trigger] before[k].created, w@.created) by {
                    assert(before[k] == out@[k]@);
                }
            }
            out.insert(pos, w);
            proof {
                p = old_p.insert(pos as int, i as int);
                assert(views(out@) =~= before.insert(pos as int, w@));
                assert forall|k: int| 0 <= k < i + 1 implies #[trigger] out@[k]@ == inp[p[k]] by {
                    if k < pos {
                        assert(out@[k]@ == before[k]);
                    } else if k > pos {
                        assert(out@[k]@ == before[k - 1]);
                    }
                }
                assert forall|a: int, b: int| 0 <= a < b < i + 1 implies #[trigger] p[a] != #[trigger] p[b] by {
                    if a != pos && b != pos {
                        let a0 = if a < pos { a } else { a - 1 };
                        let b0 = if b < pos { b } else { b - 1 };
                        assert(old_p[a0] != old_p[b0]);
                    } else if a == pos {
                        let b0 = if b < pos { b } else { b - 1 };
                        assert(old_p[b0] < i);
                    } else {
                        let a0 = if a < pos { a } else { a - 1 };
                        assert(old_p[a0] < i);
                    }
                }
                assert forall|a: int, b: int| 0 <= a < b < i + 1 implies created_le(#[trigger] views(out@)[a].created, #[trigger] views(out@)[b].created) by {
                    let v = views(out@);
                    if a != pos && b != pos {
                        let a0 = if a < pos { a } else { a - 1 };
                        let b0 = if b < pos { b } else { b - 1 };
                        assert(created_le(before[a0].created, before[b0].created));
                    } else if a == pos {
                        assert(!created_le(before[b - 1].created, w@.created));
                    } else {
                        assert(created_le(before[a].created, w@.created));
                    }
                }
                assert forall|a: int, b: int|
                    0 <= a < b < i + 1 && out@[a]@.created == out@[b]@.created implies #[trigger] p[a]
                        < #[trigger] p[b] by {
                    if a != pos && b != pos {
                        let a0 = if a < pos { a } else { a - 1 };
                        let b0 = if b < pos { b } else { b - 1 };
                        assert(out@[a]@ == before[a0]);
                        assert(out@[b]@ == before[b0]);
                        assert(old_p[a0] < old_p[b0]);
                    } else if a == pos {
                        assert(out@[b]@ == before[b - 1]);
                        assert(!created_le(before[b - 1].created, w@.created));
                    } else {
                        let a0 = if a < pos { a } else { a - 1 };
                        assert(old_p[a0] < i);
                    }
                }
            }
            i = i + 1;
        }
        proof {
            assert(is_stable_sort_by(views(out@), inp, p));
        }
        out
    }

    /// When the workspace was created, in nanoseconds since the Unix epoch,
    /// if known.
    pub fn created(&self) -> (t: Option<i128>)
        ensures
            t == self.created,
    {
        self.created
    }

    /// Whether a command is running in the workspace.
    pub fn running(&self) -> (b: bool)
        ensures
            b == self.running,
    {
        self.running
    }

    /// The clone the command runs in, named as the directory it was cloned
    /// from, if that is known.
    pub fn tree(&self) -> (t: Option<String>)
        ensures
            opt_view(t) == tree_of(self@),
    {
        match &self.origin {
            Some(o) => {
                let under = join(self.dir.as_str(), "tree");
                let t = match file_name(o.as_str()) {
                    Some(f) => join(under.as_str(), f.as_str()),
                    None => join(under.as_str(), "root"),
                };
                Some(t)
            },
            None => None,
        }
    }

    /// The clone of the directory as it was when the workspace was made, if
    /// it was not the top of a git repository: what the workspace is compared
    /// with.
    pub fn base(&self) -> (b: String)
        ensures
            b@ == joined(self.dir@, "base"@),
    {
        join(self.dir.as_str(), "base")
    }

    /// The workspace as the user refers to it: its ID, and its name if it has
    /// one.
    pub fn label(&self) -> (l: String)
        ensures
            l@ == label_of(self@),
    {
        match &self.name {
            Some(n) => {
                let mut l = self.id.clone();
                l.append(" (");
                l.append(n.as_str());
                l.append(")");
                l
            },
            None => self.id.clone(),
        }
    }

    /// The workspace `key` refers to, as `find` finds it, or the latest of
    /// `origin`'s workspaces if there is no key.
    pub fn pick(all: Vec<Workspace>, origin: &str, key: Option<&str>) -> (r: Result<Workspace, Error>)
        ensures
            resolves(r, views(all@), pick_of(views(all@), origin@, match key {
                Some(k) => Some(k@),
                None => None,
            })),
    {
        match key {
            Some(key) => Workspace::find(all, origin, key),
            None => Workspace::latest(all, origin),
        }
    }
}

} // verus!

verus! {

/// A workspace's full ID refers to it: when the IDs are distinct and all of
/// one length, and no workspace of the directory is named as the ID, `find`
/// gives the workspace with that ID.
pub proof fn lemma_full_id_refers_to_its_workspace(ws: Seq<WorkspaceView>, origin: Seq<char>, i: int)
    requires
        0 <= i < ws.len(),
        forall|j: int| 0 <= j < ws.len() ==> (#[trigger] ws[j]).id.len() == ID_LEN,
        forall|a: int, b: int| 0 <= a < b < ws.len() ==> (#[trigger] ws[a]).id != (#[trigger] ws[b]).id,
        forall|j: int| 0 <= j < ws.len() ==> !#[trigger] is_named(ws[j], origin, ws[i].id),
    ensures
        find_of(ws, origin, ws[i].id) == Ok::<int, ErrorView>(i),
{
    let key = ws[i].id;
    assert(ws[i].id.subrange(0, key.len() as int) =~= key);
    assert(id_starts(ws[i], key));
    assert forall|j: int| 0 <= j < ws.len() && #[trigger] id_starts(ws[j], key) implies j == i by {
        assert(ws[j].id.subrange(0, key.len() as int) =~= ws[j].id);
        if j < i {
            assert(ws[j].id != ws[i].id);
        } else if j > i {
            assert(ws[i].id != ws[j].id);
        }
    }
}

/// A name refers first to the workspace of the directory given that it
/// names: when one of `origin`'s workspaces is named `key`, `find` gives the
/// last of them, whatever IDs start with `key`.
pub proof fn lemma_name_comes_before_id(ws: Seq<WorkspaceView>, origin: Seq<char>, key: Seq<char>, i: int)
    requires
        0 <= i < ws.len(),
        is_named(ws[i], origin, key),
    ensures
        find_of(ws, origin, key) matches Ok(j) && i <= j < ws.len() && is_named(ws[j], origin, key),
{
    lemma_last_exists(ws, origin, key, i);
}

proof fn lemma_last_exists(ws: Seq<WorkspaceView>, origin: Seq<char>, key: Seq<char>, i: int)
    requires
        0 <= i < ws.len(),
        is_named(ws[i], origin, key),
    ensures
        exists|j: int|
            i <= j < ws.len() && #[trigger] is_named(ws[j], origin, key) && forall|k: int|
                j < k < ws.len() ==> !#[trigger] is_named(ws[k], origin, key),
    decreases ws.len() - i,
{
    if exists|k: int| i < k < ws.len() && #[trigger] is_named(ws[k], origin, key) {
        let k = choose|k: int| i < k < ws.len() && #[trigger] is_named(ws[k], origin, key);
        lemma_last_exists(ws, origin, key, k);
    } else {
        assert(is_named(ws[i], origin, key));
    }
}

/// The start of more than one workspace's ID refers to none: when no
/// workspace of the directory is named `key` and two workspaces' IDs start
/// with it, `find` says so.
pub proof fn lemma_shared_start_is_ambiguous(ws: Seq<WorkspaceView>, origin: Seq<char>, key: Seq<char>, a: int, b: int)
    requires
        0 <= a < b < ws.len(),
        id_starts(ws[a], key),
        id_starts(ws[b], key),
        forall|j: int| 0 <= j < ws.len() ==> !#[trigger] is_named(ws[j], origin, key),
    ensures
        find_of(ws, origin, key) == Err::<int, ErrorView>(ErrorView::Ambiguous { key }),
{
    let c = choose|c: int| 0 <= c < ws.len() && #[trigger] id_starts(ws[c], key);
    if c == a {
        assert(id_starts(ws[b], key));
    } else {
        assert(id_starts(ws[a], key));
    }
}

/// Names are the directory's own: what `find` gives from `origin` does not
/// depend on the names of other directories' workspaces. Two listings that
/// differ only in those names give the same result.
pub proof fn lemma_names_are_the_directorys_own(
    ws1: Seq<WorkspaceView>,
    ws2: Seq<WorkspaceView>,
    origin: Seq<char>,
    key: Seq<char>,
)
    requires
        ws1.len() == ws2.len(),
        forall|i: int| 0 <= i < ws1.len() ==> (#[trigger] ws1[i]).id == ws2[i].id,
        forall|i: int| 0 <= i < ws1.len() ==> (#[trigger] ws1[i]).origin == ws2[i].origin,
        forall|i: int| 0 <= i < ws1.len() && is_of(#[trigger] ws1[i], origin) ==> ws1[i].name == ws2[i].name,
    ensures
        find_of(ws1, origin, key) == find_of(ws2, origin, key),
{
    assert forall|i: int| 0 <= i < ws1.len() implies #[trigger] is_named(ws1[i], origin, key) == is_named(ws2[i], origin, key) by {
        assert(ws1[i].origin == ws2[i].origin);
    }
    assert forall|i: int| 0 <= i < ws1.len() implies #[trigger] id_starts(ws1[i], key) == id_starts(ws2[i], key) by {
        assert(ws1[i].id == ws2[i].id);
    }
    if exists|i: int| 0 <= i < ws1.len() && #[trigger] is_named(ws1[i], origin, key) {
        let i1 = choose|i: int|
            0 <= i < ws1.len() && #[trigger] is_named(ws1[i], origin, key) && forall|j: int|
                i < j < ws1.len() ==> !#[trigger] is_named(ws1[j], origin, key);
        let w = choose|i: int| 0 <= i < ws1.len() && #[trigger] is_named(ws1[i], origin, key);
        lemma_last_exists(ws1, origin, key, w);
        assert(is_named(ws2[w], origin, key));
        lemma_last_exists(ws2, origin, key, w);
        let i2 = choose|i: int|
            0 <= i < ws2.len() && #[trigger] is_named(ws2[i], origin, key) && forall|j: int|
                i < j < ws2.len() ==> !#[trigger] is_named(ws2[j], origin, key);
        assert(i1 == i2) by {
            if i1 < i2 {
                assert(is_named(ws1[i2], origin, key));
            }
            if i2 < i1 {
                assert(is_named(ws2[i1], origin, key));
            }
        }
    } else {
        assert(!exists|i: int| 0 <= i < ws2.len() && #[trigger] is_named(ws2[i], origin, key)) by {
            if exists|i: int| 0 <= i < ws2.len() && #[trigger] is_named(ws2[i], origin, key) {
                let i = choose|i: int| 0 <= i < ws2.len() && #[trigger] is_named(ws2[i], origin, key);
                assert(is_named(ws1[i], origin, key));
            }
        }
        if exists|i: int| 0 <= i < ws1.len() && #[trigger] id_starts(ws1[i], key) {
            let c1 = choose|i: int| 0 <= i < ws1.len() && #[trigger] id_starts(ws1[i], key);
            assert(id_starts(ws2[c1], key));
            let c2 = choose|i: int| 0 <= i < ws2.len() && #[trigger] id_starts(ws2[i], key);
            assert(id_starts(ws1[c2], key));
            if forall|j: int| 0 <= j < ws1.len() && #[trigger] id_starts(ws1[j], key) ==> j == c1 {
                assert(c1 == c2);
                assert forall|j: int| 0 <= j < ws2.len() && #[trigger] id_starts(ws2[j], key) implies j == c2 by {
                    assert(id_starts(ws1[j], key));
                }
            } else {
                let j = choose|j: int| !(0 <= j < ws1.len() && #[trigger] id_starts(ws1[j], key) ==> j == c1);
                assert(id_starts(ws2[j], key));
                if forall|k: int| 0 <= k < ws2.len() && #[trigger] id_starts(ws2[k], key) ==> k == c2 {
                    assert(j == c2);
                    assert(c1 == c2);
                }
            }
        } else {
            assert(!exists|i: int| 0 <= i < ws2.len() && #[trigger] id_starts(ws2[i], key)) by {
                if exists|i: int| 0 <= i < ws2.len() && #[trigger] id_starts(ws2[i], key) {
                    let i = choose|i: int| 0 <= i < ws2.len() && #[trigger] id_starts(ws2[i], key);
                    assert(id_starts(ws1[i], key));
                }
            }
        }
    }
}

/// With no key, `pick` gives the latest of the directory's workspaces.
pub proof fn lemma_pick_without_key_is_latest(ws: Seq<WorkspaceView>, origin: Seq<char>)
    ensures
        pick_of(ws, origin, None) == latest_of(ws, origin),
{
}

/// A name given when a workspace is made refers to it: once `create` has
/// made a workspace named `n` among `ws`, `find` with `n` from its directory
/// gives it, and it is the only workspace of that directory with that name.
pub proof fn lemma_created_name_refers_to_it(
    ws: Seq<WorkspaceView>,
    root: Seq<char>,
    origin: Seq<char>,
    n: Seq<char>,
    entropy: Seq<u8>,
)
    requires
        create_of(ws, root, origin, Some(n), entropy) is Ok,
    ensures
        ({
            let w = create_of(ws, root, origin, Some(n), entropy)->Ok_0;
            let all = ws.push(w);
            &&& find_of(all, origin, n) == Ok::<int, ErrorView>(ws.len() as int)
            &&& forall|i: int| 0 <= i < all.len() && #[trigger] is_named(all[i], origin, n) ==> i == ws.len()
        }),
{
    let w = create_of(ws, root, origin, Some(n), entropy)->Ok_0;
    let all = ws.push(w);
    assert(is_named(all[ws.len() as int], origin, n));
    assert forall|i: int| 0 <= i < all.len() && #[trigger] is_named(all[i], origin, n) implies i == ws.len() by {
        if i < ws.len() {
            assert(all[i] == ws[i]);
            assert(is_named(ws[i], origin, n));
        }
    }
    let c = choose|c: int|
        0 <= c < all.len() && #[trigger] is_named(all[c], origin, n) && forall|k: int|
            c < k < all.len() ==> !#[trigger] is_named(all[k], origin, n);
}

/// What a key refers to has that name or an ID that starts with it: the
/// workspace `find` gives is one of the directory's named `key`, or one whose
/// ID starts with `key`; and `latest` gives a workspace of the directory.
pub proof fn lemma_found_matches_key(ws: Seq<WorkspaceView>, origin: Seq<char>, key: Seq<char>)
    ensures
        find_of(ws, origin, key) matches Ok(i) ==> 0 <= i < ws.len() && (is_named(ws[i], origin, key)
            || id_starts(ws[i], key)),
        latest_of(ws, origin) matches Ok(i) ==> 0 <= i < ws.len() && is_of(ws[i], origin),
{
    if exists|i: int| 0 <= i < ws.len() && #[trigger] is_named(ws[i], origin, key) {
        let i = choose|i: int| 0 <= i < ws.len() && #[trigger] is_named(ws[i], origin, key);
        lemma_last_exists(ws, origin, key, i);
    }
    if exists|i: int| 0 <= i < ws.len() && #[trigger] is_of(ws[i], origin) {
        let i = choose|i: int| 0 <= i < ws.len() && #[trigger] is_of(ws[i], origin);
        lemma_last_of_exists(ws, origin, i);
    }
}

proof fn lemma_last_of_exists(ws: Seq<WorkspaceView>, origin: Seq<char>, i: int)
    requires
        0 <= i < ws.len(),
        is_of(ws[i], origin),
    ensures
        exists|j: int|
            i <= j < ws.len() && #[trigger] is_of(ws[j], origin) && forall|k: int|
                j < k < ws.len() ==> !#[trigger] is_of(ws[k], origin),
    decreases ws.len() - i,
{
    if exists|k: int| i < k < ws.len() && #[trigger] is_of(ws[k], origin) {
        let k = choose|k: int| i < k < ws.len() && #[trigger] is_of(ws[k], origin);
        lemma_last_of_exists(ws, origin, k);
    }
}

/// Whether `w` was made from the directory whose components are those of
/// `dir`.
pub open spec fn made_from(w: WorkspaceView, dir: Seq<char>) -> bool {
    w.origin matches Some(p) && components_of(p) == components_of(dir)
}

/// The latest workspace of a directory is the last of those made from that
/// very directory, compared component by component, and there is none
/// exactly when no workspace was made from it: a workspace of another
/// directory, even one of the same name, is never taken for it.
pub proof fn lemma_latest_is_of_the_same_directory(ws: Seq<WorkspaceView>, origin: Seq<char>)
    ensures
        latest_of(ws, origin) matches Ok(i) ==> {
            &&& 0 <= i < ws.len()
            &&& ws[i].origin matches Some(p) && components_of(p) == components_of(origin)
            &&& forall|j: int| i < j < ws.len() ==> !(#[trigger] ws[j].origin matches Some(q)
                && components_of(q) == components_of(origin))
        },
        latest_of(ws, origin) is Err <==> forall|j: int| 0 <= j < ws.len() ==> !(
        #[trigger] ws[j].origin matches Some(q) && components_of(q) == components_of(origin)),
{
    lemma_found_matches_key(ws, origin, Seq::empty());
    if exists|i: int| 0 <= i < ws.len() && #[trigger] is_of(ws[i], origin) {
        let i = choose|i: int| 0 <= i < ws.len() && #[trigger] is_of(ws[i], origin);
        lemma_last_of_exists(ws, origin, i);
        let k = latest_of(ws, origin)->Ok_0;
        assert forall|j: int| k < j < ws.len() implies !(#[trigger] ws[j].origin matches Some(q)
            && components_of(q) == components_of(origin)) by {
            assert(!is_of(ws[j], origin));
        }
    } else {
        assert forall|j: int| 0 <= j < ws.len() implies !(#[trigger] ws[j].origin matches Some(q)
            && components_of(q) == components_of(origin)) by {
            assert(!is_of(ws[j], origin));
        }
    }
}

/// A name refers to a workspace made from the very directory it is given
/// from, compared component by component: when one was given that name,
/// `find` gives one of those, and whatever `find` gives is named so and made
/// from that directory, or has an ID that starts with the key.
pub proof fn lemma_name_refers_to_the_same_directory(ws: Seq<WorkspaceView>, origin: Seq<char>, key: Seq<char>)
    ensures
        find_of(ws, origin, key) matches Ok(i) ==> 0 <= i < ws.len() && ((ws[i].name == Some(key)
            && made_from(ws[i], origin)) || (key.len() <= ws[i].id.len() && ws[i].id.subrange(
            0,
            key.len() as int,
        ) == key)),
        (exists|j: int| 0 <= j < ws.len() && #[trigger] ws[j].name == Some(key) && made_from(ws[j], origin))
            ==> (find_of(ws, origin, key) matches Ok(i) && 0 <= i < ws.len() && ws[i].name == Some(key)
            && made_from(ws[i], origin)),
{
    lemma_found_matches_key(ws, origin, key);
    if exists|j: int| 0 <= j < ws.len() && #[trigger] ws[j].name == Some(key) && made_from(ws[j], origin) {
        let j = choose|j: int| 0 <= j < ws.len() && #[trigger] ws[j].name == Some(key) && made_from(ws[j], origin);
        assert(is_named(ws[j], origin, key));
        lemma_last_exists(ws, origin, key, j);
    }
}

/// A name made only of ASCII letters, digits, `-`, `_` and `.`, not starting
/// with `-`, can be given to a workspace that no workspace of its directory
/// has: `create` then makes a workspace of that directory with that name.
pub proof fn lemma_create_takes_such_names(
    ws: Seq<WorkspaceView>,
    root: Seq<char>,
    origin: Seq<char>,
    n: Seq<char>,
    entropy: Seq<u8>,
)
    requires
        n.len() > 0,
        n[0] != '-',
        forall|i: int| 0 <= i < n.len() ==> (('a' <= #[trigger] n[i] && n[i] <= 'z') || ('A' <= n[i]
            && n[i] <= 'Z') || ('0' <= n[i] && n[i] <= '9') || n[i] == '-' || n[i] == '_' || n[i]
            == '.'),
        forall|j: int| 0 <= j < ws.len() ==> !(#[trigger] ws[j].name == Some(n) && made_from(ws[j], origin)),
    ensures
        create_of(ws, root, origin, Some(n), entropy) matches Ok(w) && w.name == Some(n) && w.origin
            == Some(origin),
{
    crate::name::lemma_name_chars(n);
    assert forall|j: int| 0 <= j < ws.len() implies !#[trigger] is_named(ws[j], origin, n) by {
        assert(!(ws[j].name == Some(n) && made_from(ws[j], origin)));
    }
}

} // verus!
