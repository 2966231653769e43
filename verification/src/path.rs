//! Paths, as strings of characters separated by `/`.
//!
//! Most paths `hmm` handles are canonical, as the working directory and the
//! workspaces' root are resolved before use: absolute, without an empty, `.`
//! or `..` component, and without a trailing `/` unless the path is `/`.

use vstd::prelude::*;
use vstd::string::*;

use crate::text::{is_prefix, lemma_split_len, split, split_on, starts_with};

verus! {

/// `name` joined to `base`, as `Path::join` joins them: `name` itself if it
/// is absolute, and otherwise `base`, a `/` if `base` is not empty and does not
/// end with one, and `name`.
pub open spec fn joined(base: Seq<char>, name: Seq<char>) -> Seq<char> {
    if name.len() > 0 && name[0] == '/' {
        name
    } else if base.len() > 0 && base.last() != '/' {
        base + seq!['/'] + name
    } else {
        base + name
    }
}

/// `name` joined to `base`.
pub fn join(base: &str, name: &str) -> (r: String)
    ensures
        r@ == joined(base@, name@),
{
    let n = base.unicode_len();
    if name.unicode_len() > 0 && name.get_char(0) == '/' {
        return name.to_owned();
    }
    let mut r = base.to_owned();
    if n > 0 && base.get_char(n - 1) != '/' {
        proof {
            reveal_strlit("/");
        }
        r.append("/");
    }
    r.append(name);
    r
}

/// Whether `piece`, a piece of a path between separators, is a component
/// that names something: neither empty nor `.`.
pub open spec fn is_named_piece(piece: Seq<char>) -> bool {
    piece.len() > 0 && piece != seq!['.']
}

/// The last component of `path` that names something, if any, as
/// `Path::file_name` gives it: none if there is no such component or it is
/// `..`.
pub open spec fn file_name_of(path: Seq<char>) -> Option<Seq<char>> {
    let pieces = split(path, '/');
    if exists|j: int| 0 <= j < pieces.len() && #[trigger] is_named_piece(pieces[j]) {
        let j = choose|j: int|
            0 <= j < pieces.len() && #[trigger] is_named_piece(pieces[j]) && forall|k: int|
                j < k < pieces.len() ==> !#[trigger] is_named_piece(pieces[k]);
        if pieces[j] == seq!['.', '.'] {
            None
        } else {
            Some(pieces[j])
        }
    } else {
        None
    }
}

fn named_piece(piece: &str) -> (b: bool)
    ensures
        b == is_named_piece(piece@),
{
    let n = piece.unicode_len();
    if n == 0 {
        return false;
    }
    if n == 1 && piece.get_char(0) == '.' {
        assert(piece@ =~= seq!['.']);
        return false;
    }
    proof {
        if piece@ == seq!['.'] {
            assert(piece@[0] == '.');
        }
    }
    true
}

/// The last component of `path`, if it names something.
pub fn file_name(path: &str) -> (r: Option<String>)
    ensures
        r matches Some(name) ==> file_name_of(path@) == Some(name@),
        r is None ==> file_name_of(path@) is None,
{
    let pieces = split_on(path, '/');
    let ghost all = split(path@, '/');
    proof {
        lemma_split_len(path@, '/');
        assert forall|j: int| 0 <= j < pieces@.len() implies #[trigger] pieces@[j]@ == all[j] by {
            assert(pieces@.map_values(|l: String| l@)[j] == all[j]);
        }
    }
    let mut j: usize = pieces.len();
    while j > 0
        invariant
            all == split(path@, '/'),
            all.len() == pieces@.len(),
            forall|k: int| 0 <= k < pieces@.len() ==> #[trigger] pieces@[k]@ == all[k],
            j <= pieces@.len(),
            forall|k: int| j <= k < all.len() ==> !#[trigger] is_named_piece(all[k]),
        decreases j,
    {
        let piece = pieces[j - 1].as_str();
        if named_piece(piece) {
            let ghost jj = (j - 1) as int;
            proof {
                assert(is_named_piece(all[jj]));
                let c = choose|c: int|
                    0 <= c < all.len() && #[trigger] is_named_piece(all[c]) && forall|k: int|
                        c < k < all.len() ==> !#[trigger] is_named_piece(all[k]);
                assert(c == jj) by {
                    if c < jj {
                        assert(!is_named_piece(all[jj]));
                    }
                    if c > jj {
                        assert(!is_named_piece(all[c]));
                    }
                }
            }
            if piece.unicode_len() == 2 && piece.get_char(0) == '.' && piece.get_char(1) == '.' {
                assert(piece@ =~= seq!['.', '.']);
                return None;
            }
            proof {
                if piece@ == seq!['.', '.'] {
                    assert(piece@[0] == '.' && piece@[1] == '.');
                }
            }
            return Some(piece.to_owned());
        }
        j = j - 1;
    }
    None
}

/// Whether `path` is canonical: absolute, without a trailing `/` unless it is
/// `/`, and without an empty, `.` or `..` component.
pub open spec fn is_canonical(path: Seq<char>) -> bool {
    &&& path.len() >= 1
    &&& path[0] == '/'
    &&& (path.len() == 1 || path.last() != '/')
    &&& forall|i: int|
        0 <= i < path.len() - 1 && #[trigger] path[i] == '/' ==> path[i + 1] != '/'
    &&& forall|i: int|
        0 <= i < path.len() && #[trigger] path[i] == '/' ==> !is_dot_component(path, i + 1)
}

/// Whether the component of `path` that starts at `j` is `.` or `..`.
pub open spec fn is_dot_component(path: Seq<char>, j: int) -> bool {
    ||| (j < path.len() && path[j] == '.' && (j + 1 == path.len() || path[j + 1] == '/'))
    ||| (j + 1 < path.len() && path[j] == '.' && path[j + 1] == '.' && (j + 2 == path.len()
        || path[j + 2] == '/'))
}

/// Whether `path` is `base` or under it, as `Path::starts_with` says of a
/// canonical path and a canonical base.
pub open spec fn is_within(path: Seq<char>, base: Seq<char>) -> bool {
    ||| (base == seq!['/'] && path.len() > 0 && path[0] == '/')
    ||| path == base
    ||| is_prefix(base + seq!['/'], path)
}

/// Whether `path` is the canonical `base` or under it.
pub fn within(path: &str, base: &str) -> (b: bool)
    requires
        is_canonical(base@),
    ensures
        b == is_within(path@, base@),
{
    let n = base.unicode_len();
    if n == 1 {
        assert(base@ =~= seq!['/']);
        let m = path.unicode_len();
        if m > 0 && path.get_char(0) == '/' {
            return true;
        }
        proof {
            if path@ == base@ {
                assert(path@[0] == '/');
            }
            if is_prefix(base@ + seq!['/'], path@) {
                assert(path@.subrange(0, 2)[0] == '/');
            }
        }
        return false;
    }
    proof {
        if base@ == seq!['/'] {
            assert(base@.len() == 1);
        }
    }
    if path.unicode_len() == n {
        let r = starts_with(path, base);
        proof {
            assert(path@.subrange(0, n as int) =~= path@);
            if !r {
                assert(path@ != base@);
            }
        }
        return r;
    }
    if !starts_with(path, base) {
        proof {
            if is_prefix(base@ + seq!['/'], path@) {
                assert(path@.subrange(0, n as int) =~= (base@ + seq!['/']).subrange(0, n as int));
                assert((base@ + seq!['/']).subrange(0, n as int) =~= base@);
            }
        }
        return false;
    }
    if path.unicode_len() <= n || path.get_char(n) != '/' {
        proof {
            if is_prefix(base@ + seq!['/'], path@) {
                assert(path@.subrange(0, n + 1)[n as int] == '/');
            }
        }
        return false;
    }
    proof {
        assert(path@.subrange(0, n + 1) =~= base@ + seq!['/']);
    }
    true
}

/// Whether `path` is canonical.
pub fn canonical(path: &str) -> (b: bool)
    ensures
        b == is_canonical(path@),
{
    let n = path.unicode_len();
    if n == 0 || path.get_char(0) != '/' {
        return false;
    }
    if n > 1 && path.get_char(n - 1) == '/' {
        return false;
    }
    let mut i: usize = 0;
    while i < n
        invariant
            n == path@.len(),
            n >= 1,
            path@[0] == '/',
            n == 1 || path@.last() != '/',
            i <= n,
            forall|k: int| 0 <= k < i && k < n - 1 && #[trigger] path@[k] == '/' ==> path@[k + 1] != '/',
            forall|k: int|
                0 <= k < i && #[trigger] path@[k] == '/' ==> !is_dot_component(path@, k + 1),
        decreases n - i,
    {
        if path.get_char(i) == '/' {
            if i + 1 < n && path.get_char(i + 1) == '/' {
                return false;
            }
            let j = i + 1;
            if j < n && path.get_char(j) == '.' && (j + 1 == n || path.get_char(j + 1) == '/') {
                assert(is_dot_component(path@, i + 1));
                return false;
            }
            if j + 1 < n && path.get_char(j) == '.' && path.get_char(j + 1) == '.' && (j + 2 == n
                || path.get_char(j + 2) == '/') {
                assert(is_dot_component(path@, i + 1));
                return false;
            }
        }
        i = i + 1;
    }
    true
}

/// The path that a canonical `path` other than `/` is in: up to its last
/// `/`, or `/` if that is its first character.
pub open spec fn parent_of(path: Seq<char>) -> Seq<char> {
    let k = choose|k: int|
        0 <= k < path.len() && path[k] == '/' && forall|i: int|
            k < i < path.len() ==> #[trigger] path[i] != '/';
    if k == 0 {
        seq!['/']
    } else {
        path.subrange(0, k)
    }
}

/// The paths above a canonical `path`, nearest first, as
/// `Path::ancestors().skip(1)` gives them.
pub open spec fn ancestors_of(path: Seq<char>) -> Seq<Seq<char>>
    decreases path.len(),
{
    if path.len() <= 1 {
        Seq::empty()
    } else {
        let p = parent_of(path);
        if p.len() < path.len() {
            seq![p] + ancestors_of(p)
        } else {
            Seq::empty()
        }
    }
}

proof fn lemma_parent(path: Seq<char>, k: int)
    requires
        is_canonical(path),
        path.len() > 1,
        0 <= k < path.len(),
        path[k] == '/',
        forall|i: int| k < i < path.len() ==> #[trigger] path[i] != '/',
    ensures
        parent_of(path) == (if k == 0 {
            seq!['/']
        } else {
            path.subrange(0, k)
        }),
        parent_of(path).len() < path.len(),
        is_canonical(parent_of(path)),
{
    let c = choose|c: int|
        0 <= c < path.len() && path[c] == '/' && forall|i: int|
            c < i < path.len() ==> #[trigger] path[i] != '/';
    assert(c == k) by {
        if c < k {
            assert(path[k] != '/');
        }
        if c > k {
            assert(path[c] != '/');
        }
    }
    if k > 0 {
        let p = path.subrange(0, k);
        assert(k < path.len() - 1 ==> path[k + 1] != '/');
        assert(p.last() != '/') by {
            assert(path[k - 1] != '/');
        }
        assert forall|i: int| 0 <= i < p.len() - 1 && #[trigger] p[i] == '/' implies p[i + 1]
            != '/' by {
            assert(path[i] == '/');
        }
        assert forall|i: int| 0 <= i < p.len() && #[trigger] p[i] == '/' implies !is_dot_component(
            p,
            i + 1,
        ) by {
            assert(path[i] == '/');
            assert(!is_dot_component(path, i + 1));
            if i + 1 < p.len() {
                assert(p[i + 1] == path[i + 1]);
            }
            if i + 2 < p.len() {
                assert(p[i + 2] == path[i + 2]);
            }
            if i + 1 == p.len() {
                assert(path[i + 1] == '/');
            }
        }
    } else {
        assert(is_canonical(seq!['/']));
    }
}

fn last_slash(path: &str) -> (k: usize)
    requires
        path@.len() > 0,
        path@[0] == '/',
    ensures
        k < path@.len(),
        path@[k as int] == '/',
        forall|i: int| k < i < path@.len() ==> #[trigger] path@[i] != '/',
{
    let n = path.unicode_len();
    let mut k: usize = n - 1;
    while path.get_char(k) != '/'
        invariant
            n == path@.len(),
            path@[0] == '/',
            k < n,
            forall|i: int| k < i < n ==> #[trigger] path@[i] != '/',
        decreases k,
    {
        k = k - 1;
    }
    k
}

fn parent(path: &str) -> (p: String)
    requires
        is_canonical(path@),
        path@.len() > 1,
    ensures
        p@ == parent_of(path@),
        p@.len() < path@.len(),
        is_canonical(p@),
{
    let k = last_slash(path);
    proof {
        lemma_parent(path@, k as int);
    }
    if k == 0 {
        proof {
            reveal_strlit("/");
        }
        "/".to_owned()
    } else {
        path.substring_char(0, k).to_owned()
    }
}

/// The paths above the canonical `path`, nearest first.
pub fn ancestors(path: &str) -> (r: Vec<String>)
    requires
        is_canonical(path@),
    ensures
        r@.map_values(|a: String| a@) == ancestors_of(path@),
    decreases path@.len(),
{
    let n = path.unicode_len();
    if n <= 1 {
        let r: Vec<String> = Vec::new();
        assert(r@.map_values(|a: String| a@) =~= Seq::<Seq<char>>::empty());
        return r;
    }
    let parent = parent(path);
    let rest = ancestors(parent.as_str());
    let mut r: Vec<String> = Vec::new();
    r.push(parent);
    let mut i: usize = 0;
    while i < rest.len()
        invariant
            r@.len() == i + 1,
            r@[0]@ == parent_of(path@),
            forall|j: int| 1 <= j <= i ==> #[trigger] r@[j]@ == rest@[j - 1]@,
            i <= rest@.len(),
        decreases rest@.len() - i,
    {
        r.push(rest[i].clone());
        i = i + 1;
    }
    proof {
        assert(r@.map_values(|a: String| a@) =~= seq![parent_of(path@)] + rest@.map_values(
            |a: String| a@,
        ));
    }
    r
}

} // verus!
