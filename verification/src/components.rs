//! Paths taken by their components, as `Path` compares and strips them: a
//! root (`/`) or a leading `.`, then the named parts between the `/`s, with
//! empty parts and `.` left out, whatever the path's spelling.

use vstd::prelude::*;
use vstd::string::*;

use crate::invocation::strs;
use crate::path::{join, joined};
use crate::text::{same, split, split_on};

verus! {

/// Whether a part between `/`s names something: it is neither empty nor `.`.
pub open spec fn is_named_part(p: Seq<char>) -> bool {
    p.len() > 0 && p != seq!['.']
}

/// Whether `s` is absolute: it starts with `/`.
pub open spec fn is_rooted(s: Seq<char>) -> bool {
    s.len() > 0 && s[0] == '/'
}

/// Whether the relative `s` starts with the part `.`, which `Path` keeps as
/// its first component.
pub open spec fn starts_here(s: Seq<char>) -> bool {
    !is_rooted(s) && split(s, '/')[0] == seq!['.']
}

/// The first component of `s` that is not a named part: the root, a leading
/// `.`, or none.
pub open spec fn root_of(s: Seq<char>) -> Seq<Seq<char>> {
    if is_rooted(s) {
        seq![seq!['/']]
    } else if starts_here(s) {
        seq![seq!['.']]
    } else {
        Seq::empty()
    }
}

/// The parts of `s` between `/`s after its root or leading `.`.
pub open spec fn after_root(s: Seq<char>) -> Seq<Seq<char>> {
    if root_of(s).len() > 0 {
        split(s, '/').drop_first()
    } else {
        split(s, '/')
    }
}

/// The named parts of `ps`, in order.
pub open spec fn named_parts(ps: Seq<Seq<char>>) -> Seq<Seq<char>>
    decreases ps.len(),
{
    if ps.len() == 0 {
        Seq::empty()
    } else if is_named_part(ps[0]) {
        seq![ps[0]] + named_parts(ps.drop_first())
    } else {
        named_parts(ps.drop_first())
    }
}

/// The components of `s`, as `Path::components` gives them.
pub open spec fn components_of(s: Seq<char>) -> Seq<Seq<char>> {
    root_of(s) + named_parts(after_root(s))
}

/// Whether `a` and `b` are the same path, as `Path`'s `==` says: whether
/// they have the same components.
pub open spec fn same_path_of(a: Seq<char>, b: Seq<char>) -> bool {
    components_of(a) == components_of(b)
}

/// The parts of `ps` left after the named parts `hs`, matched in order with
/// the named parts of `ps` and skipping its other parts, as
/// `Path::strip_prefix` goes through them; none if they do not match.
pub open spec fn strip_parts(ps: Seq<Seq<char>>, hs: Seq<Seq<char>>) -> Option<Seq<Seq<char>>>
    decreases ps.len(),
{
    if hs.len() == 0 {
        Some(ps)
    } else if ps.len() == 0 {
        None
    } else if !is_named_part(ps[0]) {
        strip_parts(ps.drop_first(), hs)
    } else if ps[0] == hs[0] {
        strip_parts(ps.drop_first(), hs.drop_first())
    } else {
        None
    }
}

/// `ps` without the parts that name nothing at its start.
pub open spec fn trim_front(ps: Seq<Seq<char>>) -> Seq<Seq<char>>
    decreases ps.len(),
{
    if ps.len() > 0 && !is_named_part(ps[0]) {
        trim_front(ps.drop_first())
    } else {
        ps
    }
}

/// `ps` without the parts that name nothing at its end.
pub open spec fn trim_back(ps: Seq<Seq<char>>) -> Seq<Seq<char>>
    decreases ps.len(),
{
    if ps.len() > 0 && !is_named_part(ps.last()) {
        trim_back(ps.drop_last())
    } else {
        ps
    }
}

/// The parts `ps` joined by `/`.
pub open spec fn joined_parts(ps: Seq<Seq<char>>) -> Seq<char>
    decreases ps.len(),
{
    if ps.len() == 0 {
        Seq::empty()
    } else if ps.len() == 1 {
        ps[0]
    } else {
        joined_parts(ps.drop_last()) + seq!['/'] + ps.last()
    }
}

/// What is left of `s` when no component is taken from it, as
/// `Components::as_path` gives it: `s` without the empty and `.` parts at
/// its end, its root or leading `.` kept.
pub open spec fn kept_whole(s: Seq<char>) -> Seq<char> {
    let rest = trim_back(after_root(s));
    if is_rooted(s) {
        if rest.len() == 0 {
            seq!['/']
        } else {
            seq!['/'] + joined_parts(rest)
        }
    } else if starts_here(s) {
        if rest.len() == 0 {
            seq!['.']
        } else {
            seq!['.', '/'] + joined_parts(rest)
        }
    } else {
        joined_parts(rest)
    }
}

/// What is left of a path under the home directory, `rest`, written after
/// `~`: `~` alone if nothing is left, and otherwise `rest` joined to `~`.
pub open spec fn under_home(rest: Seq<char>) -> Seq<char> {
    if rest.len() == 0 {
        seq!['~']
    } else {
        joined(seq!['~'], rest)
    }
}

/// `path` with the home directory `home` written as `~`, when `path` is
/// within `home` by components, as `Path::strip_prefix` takes them: `~` for
/// the home directory itself, and otherwise `~/` and what is left of `path`
/// after the components of `home`, without the empty and `.` parts at its
/// ends; and otherwise `path`.
pub open spec fn tilde_of(path: Seq<char>, home: Option<Seq<char>>) -> Seq<char> {
    match home {
        None => path,
        Some(h) => if h.len() == 0 {
            under_home(kept_whole(path))
        } else if root_of(h) == root_of(path) {
            match strip_parts(after_root(path), named_parts(after_root(h))) {
                Some(rest) => under_home(joined_parts(trim_back(trim_front(rest)))),
                None => path,
            }
        } else {
            path
        },
    }
}

/// Whether the part `p` names something.
fn named(p: &str) -> (b: bool)
    ensures
        b == is_named_part(p@),
{
    let n = p.unicode_len();
    if n == 0 {
        return false;
    }
    if n == 1 && p.get_char(0) == '.' {
        assert(p@ =~= seq!['.']);
        return false;
    }
    proof {
        if p@ == seq!['.'] {
            assert(p@.len() == 1 && p@[0] == '.');
        }
    }
    true
}

/// The parts of `s` between `/`s, and how many come before those after its
/// root: 1 if it has a root or a leading `.`, and 0 otherwise; and whether it
/// is absolute.
fn parts(s: &str) -> (r: (Vec<String>, usize, bool))
    ensures
        strs(r.0@) == split(s@, '/'),
        r.2 == is_rooted(s@),
        r.1 == (if root_of(s@).len() > 0 {
            1usize
        } else {
            0usize
        }),
        r.1 <= r.0@.len(),
        strs(r.0@).subrange(r.1 as int, r.0@.len() as int) == after_root(s@),
{
    let v = split_on(s, '/');
    let ghost ps = split(s@, '/');
    proof {
        crate::text::lemma_split_len(s@, '/');
        assert(strs(v@).len() == v@.len());
    }
    let rooted = s.unicode_len() > 0 && s.get_char(0) == '/';
    let first = v[0].as_str();
    let here = !rooted && first.unicode_len() == 1 && first.get_char(0) == '.';
    proof {
        assert(strs(v@)[0] == v@[0]@);
        if here {
            assert(ps[0] =~= seq!['.']);
        }
        if !rooted && ps[0] == seq!['.'] {
            assert(v@[0]@.len() == 1);
        }
    }
    let k: usize = if rooted || here {
        1
    } else {
        0
    };
    proof {
        assert(root_of(s@).len() > 0 <==> (rooted || here));
        if k == 1 {
            assert(strs(v@).subrange(1, v@.len() as int) =~= ps.drop_first());
        } else {
            assert(strs(v@).subrange(0, v@.len() as int) =~= ps);
        }
    }
    (v, k, rooted)
}

/// The named parts of `v` from `from` on.
fn named_from(v: &Vec<String>, from: usize) -> (r: Vec<String>)
    requires
        from <= v@.len(),
    ensures
        strs(r@) == named_parts(strs(v@).subrange(from as int, v@.len() as int)),
{
    let ghost all = strs(v@);
    let n = v.len();
    let mut r: Vec<String> = Vec::new();
    let mut i = from;
    while i < n
        invariant
            all == strs(v@),
            n == v@.len(),
            from <= i <= n,
            named_parts(all.subrange(from as int, n as int)) == strs(r@) + named_parts(
                all.subrange(i as int, n as int),
            ),
        decreases n - i,
    {
        let ghost rest = all.subrange(i as int, n as int);
        proof {
            assert(rest.drop_first() =~= all.subrange(i + 1, n as int));
            assert(rest[0] == v@[i as int]@);
        }
        if named(v[i].as_str()) {
            let ghost before = strs(r@);
            r.push(v[i].clone());
            proof {
                assert(strs(r@) =~= before.push(v@[i as int]@));
                assert(strs(r@) + named_parts(all.subrange(i + 1, n as int)) =~= before + (seq![
                    rest[0],
                ] + named_parts(rest.drop_first())));
            }
        }
        i = i + 1;
    }
    proof {
        assert(all.subrange(n as int, n as int) =~= Seq::<Seq<char>>::empty());
        assert(strs(r@) + Seq::<Seq<char>>::empty() =~= strs(r@));
    }
    r
}

/// The components of `s`.
pub fn components(s: &str) -> (r: Vec<String>)
    ensures
        strs(r@) == components_of(s@),
{
    let (v, k, rooted) = parts(s);
    let named = named_from(&v, k);
    let mut r: Vec<String> = Vec::new();
    if k == 1 {
        if rooted {
            r.push("/".to_owned());
            proof {
                reveal_strlit("/");
                assert("/"@ =~= seq!['/']);
            }
        } else {
            r.push(".".to_owned());
            proof {
                reveal_strlit(".");
                assert("."@ =~= seq!['.']);
            }
        }
    }
    proof {
        assert(strs(r@) =~= root_of(s@));
    }
    let mut i: usize = 0;
    let ghost start = strs(r@);
    while i < named.len()
        invariant
            i <= named@.len(),
            strs(r@) == start + strs(named@).subrange(0, i as int),
        decreases named@.len() - i,
    {
        let ghost before = strs(r@);
        r.push(named[i].clone());
        proof {
            assert(strs(r@) =~= before.push(named@[i as int]@));
            assert(strs(named@)[i as int] == named@[i as int]@);
            assert(strs(r@) =~= start + strs(named@).subrange(0, i + 1));
        }
        i = i + 1;
    }
    proof {
        assert(strs(named@).subrange(0, named@.len() as int) =~= strs(named@));
    }
    r
}

/// Whether `a` and `b` are the same path: whether they have the same
/// components.
pub fn same_path(a: &str, b: &str) -> (r: bool)
    ensures
        r == same_path_of(a@, b@),
{
    let x = components(a);
    let y = components(b);
    if x.len() != y.len() {
        proof {
            assert(strs(x@).len() != strs(y@).len());
        }
        return false;
    }
    let mut i: usize = 0;
    while i < x.len()
        invariant
            strs(x@) == components_of(a@),
            strs(y@) == components_of(b@),
            x@.len() == y@.len(),
            i <= x@.len(),
            forall|k: int| 0 <= k < i ==> #[trigger] strs(x@)[k] == strs(y@)[k],
        decreases x@.len() - i,
    {
        if !same(x[i].as_str(), y[i].as_str()) {
            proof {
                assert(strs(x@)[i as int] != strs(y@)[i as int]);
                assert(components_of(a@)[i as int] != components_of(b@)[i as int]);
            }
            return false;
        }
        i = i + 1;
    }
    proof {
        assert(strs(x@) =~= strs(y@));
    }
    true
}

/// Where what is left of `ps` from `from` on starts once the named parts
/// `hs` are taken from it, if they match.
fn strip(ps: &Vec<String>, from: usize, hs: &Vec<String>) -> (r: Option<usize>)
    requires
        from <= ps@.len(),
    ensures
        match strip_parts(strs(ps@).subrange(from as int, ps@.len() as int), strs(hs@)) {
            Some(rest) => r matches Some(k) && from <= k <= ps@.len() && rest == strs(
                ps@,
            ).subrange(k as int, ps@.len() as int),
            None => r is None,
        },
{
    let ghost p = strs(ps@);
    let ghost h = strs(hs@);
    let n = ps.len();
    let m = hs.len();
    let mut i = from;
    let mut j: usize = 0;
    proof {
        assert(h.subrange(0, m as int) =~= h);
    }
    while j < m
        invariant
            p == strs(ps@),
            h == strs(hs@),
            n == ps@.len(),
            m == hs@.len(),
            from <= i <= n,
            j <= m,
            strip_parts(p.subrange(from as int, n as int), h) == strip_parts(
                p.subrange(i as int, n as int),
                h.subrange(j as int, m as int),
            ),
        decreases n - i,
    {
        let ghost rest = p.subrange(i as int, n as int);
        let ghost want = h.subrange(j as int, m as int);
        if i == n {
            proof {
                assert(rest.len() == 0);
            }
            return None;
        }
        proof {
            assert(rest.drop_first() =~= p.subrange(i + 1, n as int));
            assert(rest[0] == ps@[i as int]@);
            assert(want[0] == hs@[j as int]@);
            assert(want.drop_first() =~= h.subrange(j + 1, m as int));
        }
        if !named(ps[i].as_str()) {
            i = i + 1;
        } else if same(ps[i].as_str(), hs[j].as_str()) {
            i = i + 1;
            j = j + 1;
        } else {
            return None;
        }
    }
    proof {
        assert(h.subrange(j as int, m as int).len() == 0);
    }
    Some(i)
}

/// Where `ps` between `lo` and `hi` starts once the parts that name nothing
/// at its start are left out.
fn front(ps: &Vec<String>, lo: usize, hi: usize) -> (a: usize)
    requires
        lo <= hi <= ps@.len(),
    ensures
        lo <= a <= hi,
        trim_front(strs(ps@).subrange(lo as int, hi as int)) == strs(ps@).subrange(
            a as int,
            hi as int,
        ),
{
    let ghost p = strs(ps@);
    let mut a = lo;
    while a < hi && !named(ps[a].as_str())
        invariant
            p == strs(ps@),
            lo <= a <= hi,
            hi <= ps@.len(),
            trim_front(p.subrange(lo as int, hi as int)) == trim_front(p.subrange(a as int, hi as int)),
        decreases hi - a,
    {
        proof {
            let rest = p.subrange(a as int, hi as int);
            assert(rest.drop_first() =~= p.subrange(a + 1, hi as int));
            assert(rest[0] == ps@[a as int]@);
        }
        a = a + 1;
    }
    proof {
        let rest = p.subrange(a as int, hi as int);
        if a < hi {
            assert(rest[0] == ps@[a as int]@);
        }
    }
    a
}

/// Where `ps` between `lo` and `hi` ends once the parts that name nothing at
/// its end are left out.
fn back(ps: &Vec<String>, lo: usize, hi: usize) -> (b: usize)
    requires
        lo <= hi <= ps@.len(),
    ensures
        lo <= b <= hi,
        trim_back(strs(ps@).subrange(lo as int, hi as int)) == strs(ps@).subrange(lo as int, b as int),
{
    let ghost p = strs(ps@);
    let mut b = hi;
    while b > lo && !named(ps[b - 1].as_str())
        invariant
            p == strs(ps@),
            lo <= b <= hi,
            hi <= ps@.len(),
            trim_back(p.subrange(lo as int, hi as int)) == trim_back(p.subrange(lo as int, b as int)),
        decreases b - lo,
    {
        proof {
            let rest = p.subrange(lo as int, b as int);
            assert(rest.drop_last() =~= p.subrange(lo as int, b - 1));
            assert(rest.last() == ps@[b - 1]@);
        }
        b = b - 1;
    }
    proof {
        let rest = p.subrange(lo as int, b as int);
        if b > lo {
            assert(rest.last() == ps@[b - 1]@);
        }
    }
    b
}

/// The parts of `ps` between `lo` and `hi` joined by `/`.
fn join_parts(ps: &Vec<String>, lo: usize, hi: usize) -> (r: String)
    requires
        lo <= hi <= ps@.len(),
    ensures
        r@ == joined_parts(strs(ps@).subrange(lo as int, hi as int)),
{
    let ghost p = strs(ps@);
    let mut r = String::new();
    let mut i = lo;
    proof {
        assert(p.subrange(lo as int, lo as int).len() == 0);
    }
    while i < hi
        invariant
            p == strs(ps@),
            lo <= i <= hi,
            hi <= ps@.len(),
            r@ == joined_parts(p.subrange(lo as int, i as int)),
        decreases hi - i,
    {
        let ghost next = p.subrange(lo as int, i + 1);
        proof {
            assert(next.drop_last() =~= p.subrange(lo as int, i as int));
            assert(next.last() == ps@[i as int]@);
        }
        if i > lo {
            r.append("/");
            proof {
                reveal_strlit("/");
            }
        }
        r.append(ps[i].as_str());
        proof {
            if i == lo {
                assert(next.len() == 1);
                assert(r@ =~= next[0]);
            } else {
                assert(r@ =~= joined_parts(next.drop_last()) + seq!['/'] + next.last());
            }
        }
        i = i + 1;
    }
    r
}

/// What is left of `s` when no component is taken from it.
fn whole(s: &str) -> (r: String)
    ensures
        r@ == kept_whole(s@),
{
    let (v, k, rooted) = parts(s);
    let b = back(&v, k, v.len());
    let rest = join_parts(&v, k, b);
    let ghost kept = trim_back(after_root(s@));
    proof {
        reveal_strlit("/");
        reveal_strlit(".");
        assert(kept == strs(v@).subrange(k as int, b as int));
        assert(rest@ == joined_parts(kept));
    }
    if k == 0 {
        return rest;
    }
    let mut r = if rooted {
        "/".to_owned()
    } else {
        ".".to_owned()
    };
    if b > k {
        if !rooted {
            r.append("/");
        }
        r.append(rest.as_str());
    }
    proof {
        assert(r@ =~= kept_whole(s@));
    }
    r
}

/// What is left of a path under the home directory, written after `~`.
fn written_under_home(rest: String) -> (r: String)
    ensures
        r@ == under_home(rest@),
{
    proof {
        reveal_strlit("~");
        assert("~"@ =~= seq!['~']);
    }
    if rest.unicode_len() == 0 {
        "~".to_owned()
    } else {
        join("~", rest.as_str())
    }
}

/// `path` with the home directory written as `~`.
pub fn tilde(path: &str, home: Option<&str>) -> (r: String)
    ensures
        r@ == tilde_of(path@, match home {
            Some(h) => Some(h@),
            None => None,
        }),
{
    match home {
        None => path.to_owned(),
        Some(h) => {
            if h.unicode_len() == 0 {
                return written_under_home(whole(path));
            }
            let (hv, hk, h_rooted) = parts(h);
            let (pv, pk, p_rooted) = parts(path);
            proof {
                let x = seq![seq!['/']];
                let y = seq![seq!['.']];
                assert(x[0][0] == '/');
                assert(y[0][0] == '.');
                assert(x != y);
            }
            if hk != pk || h_rooted != p_rooted {
                proof {
                    assert(root_of(h@) != root_of(path@));
                }
                return path.to_owned();
            }
            proof {
                assert(root_of(h@) == root_of(path@));
            }
            let hn = named_from(&hv, hk);
            match strip(&pv, pk, &hn) {
                None => path.to_owned(),
                Some(k) => {
                    let a = front(&pv, k, pv.len());
                    let b = back(&pv, a, pv.len());
                    written_under_home(join_parts(&pv, a, b))
                },
            }
        },
    }
}

} // verus!
