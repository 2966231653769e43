//! `hmm ls`, and `hmm` alone: lists workspaces.

use vstd::prelude::*;
use vstd::string::*;

use crate::components::{components_of, same_path, same_path_of, tilde, tilde_of};
use crate::text::{decimal, decimal_string};
use crate::workspace::{Workspace, WorkspaceView};

verus! {

/// List the workspaces of the working directory.
pub struct Ls {
    /// Whether to list the workspaces of every directory.
    pub all: bool,
}

/// `secs` as a count of its largest unit: `42s`, `5m`, `3h`, `2d`.
pub open spec fn short_of(secs: nat) -> Seq<char> {
    if secs < 60 {
        decimal(secs) + "s"@
    } else if secs < 3600 {
        decimal(secs / 60) + "m"@
    } else if secs < 86400 {
        decimal(secs / 3600) + "h"@
    } else {
        decimal(secs / 86400) + "d"@
    }
}

/// `secs` as a count of its largest unit.
pub fn short(secs: u64) -> (s: String)
    ensures
        s@ == short_of(secs as nat),
{
    let (n, unit) = if secs < 60 {
        (secs, "s")
    } else if secs < 3600 {
        (secs / 60, "m")
    } else if secs < 86400 {
        (secs / 3600, "h")
    } else {
        (secs / 86400, "d")
    };
    let mut s = decimal_string(n);
    s.append(unit);
    s
}

/// Whether `t`, in nanoseconds since the Unix epoch, is a time the system
/// can tell: whole seconds that fit an `i64`.
pub open spec fn is_time(t: i128) -> bool {
    -9223372036854775808000000000 <= t < 9223372036854775808000000000
}

/// Whether `t` is a time the system can tell.
pub fn time_in_range(t: i128) -> (b: bool)
    ensures
        b == is_time(t),
{
    -9223372036854775808000000000 <= t && t < 9223372036854775808000000000
}

/// How long ago a workspace created at `created` was made, at `now`, as
/// `short` writes it; nothing if the time it was created is unknown or
/// later than `now`.
pub open spec fn age_of(created: Option<i128>, now: i128) -> Seq<char> {
    match created {
        Some(c) => if c <= now {
            short_of(((now - c) / 1000000000) as nat)
        } else {
            Seq::empty()
        },
        None => Seq::empty(),
    }
}

/// How long ago a workspace created at `created` was made, at `now`.
pub fn age(created: Option<i128>, now: i128) -> (s: String)
    requires
        is_time(now),
        created matches Some(c) ==> is_time(c),
    ensures
        s@ == age_of(created, now),
{
    match created {
        Some(c) => {
            if c <= now {
                let secs = (now - c) / 1000000000;
                assert(secs < 18446744073709551616);
                short(secs as u64)
            } else {
                String::new()
            }
        },
        None => String::new(),
    }
}

/// A row of the listing: a workspace's ID, name, state, age and origin.
pub struct Row {
    pub id: String,
    pub name: String,
    pub state: String,
    pub age: String,
    pub origin: String,
}

/// A row of the listing, its cells taken by their characters.
pub struct RowView {
    pub id: Seq<char>,
    pub name: Seq<char>,
    pub state: Seq<char>,
    pub age: Seq<char>,
    pub origin: Seq<char>,
}

impl View for Row {
    type V = RowView;

    open spec fn view(&self) -> RowView {
        RowView {
            id: self.id@,
            name: self.name@,
            state: self.state@,
            age: self.age@,
            origin: self.origin@,
        }
    }
}

/// The row for `w`, at `now`, with `home` written as `~`, if it is listed:
/// none if its origin is unknown, as it is still being created, or, unless
/// `all` is set, if it is not a workspace of `cwd`.
pub open spec fn row_of(
    w: WorkspaceView,
    all: bool,
    cwd: Seq<char>,
    now: i128,
    home: Option<Seq<char>>,
) -> Option<RowView> {
    match w.origin {
        None => None,
        Some(o) => if !all && !same_path_of(o, cwd) {
            None
        } else {
            Some(
                RowView {
                    id: w.id,
                    name: match w.name {
                        Some(n) => n,
                        None => "-"@,
                    },
                    state: if w.running {
                        "running"@
                    } else {
                        "done"@
                    },
                    age: age_of(w.created, now),
                    origin: tilde_of(o, home),
                },
            )
        },
    }
}

impl Ls {
    /// The row for `w` at `now`, with `home` written as `~`, if it is listed.
    pub fn row(&self, w: &Workspace, cwd: &str, now: i128, home: Option<&str>) -> (r: Option<Row>)
        requires
            is_time(now),
            w.created matches Some(c) ==> is_time(c),
        ensures
            match row_of(w@, self.all, cwd@, now, match home {
                Some(h) => Some(h@),
                None => None,
            }) {
                Some(v) => r matches Some(x) && x@ == v,
                None => r is None,
            },
    {
        match &w.origin {
            None => None,
            Some(o) => {
                if !self.all && !same_path(o.as_str(), cwd) {
                    return None;
                }
                let name = match &w.name {
                    Some(n) => n.clone(),
                    None => "-".to_owned(),
                };
                let state = if w.running {
                    "running".to_owned()
                } else {
                    "done".to_owned()
                };
                Some(
                    Row {
                        id: w.id.clone(),
                        name,
                        state,
                        age: age(w.created, now),
                        origin: tilde(o.as_str(), home),
                    },
                )
            },
        }
    }
}

/// The number of bytes `c` takes in UTF-8.
pub open spec fn utf8_width(c: char) -> nat {
    if (c as u32) < 0x80 {
        1
    } else if (c as u32) < 0x800 {
        2
    } else if (c as u32) < 0x10000 {
        3
    } else {
        4
    }
}

/// The number of bytes `s` takes in UTF-8, by which the columns are sized.
pub open spec fn byte_len(s: Seq<char>) -> nat
    decreases s.len(),
{
    if s.len() == 0 {
        0
    } else {
        byte_len(s.drop_last()) + utf8_width(s.last())
    }
}

fn byte_count(s: &str) -> (b: u128)
    ensures
        b as nat == byte_len(s@),
{
    let n = s.unicode_len();
    let mut b: u128 = 0;
    let mut i: usize = 0;
    while i < n
        invariant
            n == s@.len(),
            i <= n,
            b as nat == byte_len(s@.subrange(0, i as int)),
            b <= 4 * i,
        decreases n - i,
    {
        let c = s.get_char(i);
        let w: u128 = if (c as u32) < 0x80 {
            1
        } else if (c as u32) < 0x800 {
            2
        } else if (c as u32) < 0x10000 {
            3
        } else {
            4
        };
        proof {
            assert(s@.subrange(0, i + 1).drop_last() =~= s@.subrange(0, i as int));
            assert(s@.subrange(0, i + 1).last() == c);
        }
        b = b + w;
        i = i + 1;
    }
    proof {
        assert(s@.subrange(0, n as int) =~= s@);
    }
    b
}

/// The header of the listing.
pub open spec fn header_of() -> RowView {
    RowView { id: "ID"@, name: "NAME"@, state: "STATE"@, age: "AGE"@, origin: "ORIGIN"@ }
}

/// Cell `k` of a row.
pub open spec fn cell_of(r: RowView, k: int) -> Seq<char> {
    if k == 0 {
        r.id
    } else if k == 1 {
        r.name
    } else if k == 2 {
        r.state
    } else if k == 3 {
        r.age
    } else {
        r.origin
    }
}

/// The width of column `k` over `rows`: the most bytes a cell of it takes.
pub open spec fn width_of(rows: Seq<RowView>, k: int) -> nat
    decreases rows.len(),
{
    if rows.len() == 0 {
        0
    } else {
        let w = width_of(rows.drop_last(), k);
        let b = byte_len(cell_of(rows.last(), k));
        if b > w {
            b
        } else {
            w
        }
    }
}

/// `n` spaces.
pub open spec fn spaces(n: nat) -> Seq<char> {
    Seq::new(n, |i: int| ' ')
}

/// `s` followed by spaces to make it `w` characters, as `{:<w$}` writes it.
pub open spec fn pad_right(s: Seq<char>, w: nat) -> Seq<char> {
    if s.len() < w {
        s + spaces((w - s.len()) as nat)
    } else {
        s
    }
}

/// `s` after spaces that make it `w` characters, as `{:>w$}` writes it.
pub open spec fn pad_left(s: Seq<char>, w: nat) -> Seq<char> {
    if s.len() < w {
        spaces((w - s.len()) as nat) + s
    } else {
        s
    }
}

/// A line of the listing, its columns `w` wide: the ID, name and state
/// aligned left, the age right, and the origin as it is, two spaces apart.
pub open spec fn line_of(r: RowView, w: Seq<nat>) -> Seq<char> {
    pad_right(r.id, w[0]) + "  "@ + pad_right(r.name, w[1]) + "  "@ + pad_right(r.state, w[2])
        + "  "@ + pad_left(r.age, w[3]) + "  "@ + r.origin + "\n"@
}

/// The lines for `rows`, their columns `w` wide.
pub open spec fn lines_for(rows: Seq<RowView>, w: Seq<nat>) -> Seq<char>
    decreases rows.len(),
{
    if rows.len() == 0 {
        Seq::empty()
    } else {
        lines_for(rows.drop_last(), w) + line_of(rows.last(), w)
    }
}

/// The listing of `rows`: nothing if there are none, and otherwise the
/// header and a line for each row, each column as wide as its widest cell.
pub open spec fn table_of(rows: Seq<RowView>) -> Seq<char> {
    if rows.len() == 0 {
        Seq::empty()
    } else {
        let all = seq![header_of()] + rows;
        lines_for(all, seq![width_of(all, 0), width_of(all, 1), width_of(all, 2), width_of(all, 3)])
    }
}

fn append_spaces(s: &mut String, n: u128)
    ensures
        final(s)@ == old(s)@ + spaces(n as nat),
{
    let mut i: u128 = 0;
    while i < n
        invariant
            i <= n,
            s@ == old(s)@ + spaces(i as nat),
        decreases n - i,
    {
        s.append(" ");
        proof {
            reveal_strlit(" ");
            assert(s@ =~= old(s)@ + spaces((i + 1) as nat));
        }
        i = i + 1;
    }
}

fn append_padded(line: &mut String, s: &str, w: u128, right: bool)
    ensures
        final(line)@ == old(line)@ + (if right {
            pad_left(s@, w as nat)
        } else {
            pad_right(s@, w as nat)
        }),
{
    let n = s.unicode_len() as u128;
    if right {
        if n < w {
            append_spaces(line, w - n);
        }
        line.append(s);
        proof {
            if n < w {
                assert(line@ =~= old(line)@ + (spaces((w - n) as nat) + s@));
            }
        }
    } else {
        line.append(s);
        if n < w {
            append_spaces(line, w - n);
            proof {
                assert(line@ =~= old(line)@ + (s@ + spaces((w - n) as nat)));
            }
        }
    }
}

fn cell(r: &Row, k: usize) -> (c: &str)
    requires
        k < 5,
    ensures
        c@ == cell_of(r@, k as int),
{
    if k == 0 {
        r.id.as_str()
    } else if k == 1 {
        r.name.as_str()
    } else if k == 2 {
        r.state.as_str()
    } else if k == 3 {
        r.age.as_str()
    } else {
        r.origin.as_str()
    }
}

fn line(out: &mut String, r: &Row, w: &Vec<u128>)
    requires
        w@.len() == 4,
    ensures
        final(out)@ == old(out)@ + line_of(r@, w@.map_values(|x: u128| x as nat)),
{
    let ghost ws = w@.map_values(|x: u128| x as nat);
    append_padded(out, r.id.as_str(), w[0], false);
    out.append("  ");
    append_padded(out, r.name.as_str(), w[1], false);
    out.append("  ");
    append_padded(out, r.state.as_str(), w[2], false);
    out.append("  ");
    append_padded(out, r.age.as_str(), w[3], true);
    out.append("  ");
    out.append(r.origin.as_str());
    out.append("\n");
    proof {
        assert(ws[0] == w@[0] as nat);
        assert(ws[1] == w@[1] as nat);
        assert(ws[2] == w@[2] as nat);
        assert(ws[3] == w@[3] as nat);
        assert(out@ =~= old(out)@ + line_of(r@, ws));
    }
}

fn header() -> (h: Row)
    ensures
        h@ == header_of(),
{
    Row {
        id: "ID".to_owned(),
        name: "NAME".to_owned(),
        state: "STATE".to_owned(),
        age: "AGE".to_owned(),
        origin: "ORIGIN".to_owned(),
    }
}

/// The rows taken by their views.
pub open spec fn row_views(rows: Seq<Row>) -> Seq<RowView> {
    rows.map_values(|r: Row| r@)
}

/// The listing of `rows`.
pub fn table(rows: Vec<Row>) -> (t: String)
    ensures
        t@ == table_of(row_views(rows@)),
{
    if rows.len() == 0 {
        return String::new();
    }
    let mut all: Vec<Row> = Vec::new();
    all.push(header());
    let mut rows = rows;
    let ghost given = row_views(rows@);
    let mut i: usize = 0;
    let n = rows.len();
    while i < n
        invariant
            n == given.len(),
            i <= n,
            row_views(all@) == seq![header_of()] + given.subrange(0, i as int),
            row_views(rows@) == given.subrange(i as int, n as int),
        decreases n - i,
    {
        proof {
            assert(row_views(rows@).len() == rows@.len());
            assert(row_views(rows@)[0] == rows@[0]@);
        }
        let ghost old_rows = rows@;
        let r = rows.remove(0);
        proof {
            assert(r@ == given[i as int]);
            assert forall|k: int| 0 <= k < row_views(rows@).len() implies #[trigger] row_views(rows@)[k] == given.subrange(i + 1, n as int)[k] by {
                assert(rows@[k] == old_rows[k + 1]);
                assert(row_views(old_rows)[k + 1] == given.subrange(i as int, n as int)[k + 1]);
            }
        }
        let ghost before = row_views(all@);
        all.push(r);
        proof {
            assert(row_views(all@) =~= before.push(given[i as int]));
            assert(row_views(all@) =~= seq![header_of()] + given.subrange(0, i + 1));
            assert(row_views(rows@) =~= given.subrange(i + 1, n as int));
        }
        i = i + 1;
    }
    let ghost views = row_views(all@);
    proof {
        assert(given.subrange(0, n as int) =~= given);
        assert(views == seq![header_of()] + given);
    }
    let mut w: Vec<u128> = Vec::new();
    let mut k: usize = 0;
    while k < 4
        invariant
            k <= 4,
            views == row_views(all@),
            w@.len() == k,
            forall|j: int| 0 <= j < k ==> #[trigger] w@[j] as nat == width_of(views, j),
        decreases 4 - k,
    {
        let mut m: u128 = 0;
        let mut j: usize = 0;
        while j < all.len()
            invariant
                k < 4,
                views == row_views(all@),
                j <= all@.len(),
                m as nat == width_of(views.subrange(0, j as int), k as int),
            decreases all@.len() - j,
        {
            let c = cell(&all[j], k);
            let b = byte_count(c);
            proof {
                assert(views[j as int] == all@[j as int]@);

                assert(views.subrange(0, j + 1).drop_last() =~= views.subrange(0, j as int));
                assert(views.subrange(0, j + 1).last() == all@[j as int]@);
            }
            if b > m {
                m = b;
            }
            j = j + 1;
        }
        proof {
            assert(views.subrange(0, all@.len() as int) =~= views);
        }
        w.push(m);
        k = k + 1;
    }
    let ghost ws = seq![width_of(views, 0), width_of(views, 1), width_of(views, 2), width_of(views, 3)];
    proof {
        assert(w@.map_values(|x: u128| x as nat) =~= ws);
    }
    let mut out = String::new();
    let mut j: usize = 0;
    while j < all.len()
        invariant
            views == row_views(all@),
            w@.len() == 4,
            w@.map_values(|x: u128| x as nat) == ws,
            j <= all@.len(),
            out@ == lines_for(views.subrange(0, j as int), ws),
        decreases all@.len() - j,
    {
        line(&mut out, &all[j], &w);
        proof {
            assert(views.subrange(0, j + 1).drop_last() =~= views.subrange(0, j as int));
            assert(views.subrange(0, j + 1).last() == all@[j as int]@);
        }
        j = j + 1;
    }
    proof {
        assert(views.subrange(0, all@.len() as int) =~= views);
    }
    out
}

/// Nothing is printed if there are no workspaces, and something, the header
/// at least, if there are: the listing is empty exactly when the rows are.
pub proof fn lemma_empty_listing_prints_nothing(rows: Seq<RowView>)
    ensures
        (table_of(rows).len() == 0) <==> (rows.len() == 0),
{
    if rows.len() > 0 {
        let all = seq![header_of()] + rows;
        let w = seq![width_of(all, 0), width_of(all, 1), width_of(all, 2), width_of(all, 3)];
        reveal_strlit("\n");
        assert(line_of(all.last(), w).len() > 0);
        assert(lines_for(all, w) == lines_for(all.drop_last(), w) + line_of(all.last(), w));
    }
}

/// Without `all`, a workspace is listed exactly when it was made from the
/// working directory itself, compared component by component; with `all`,
/// every workspace whose origin is known is; and a row shows the
/// workspace's own ID.
pub proof fn lemma_listed_for_the_working_directory(
    w: WorkspaceView,
    cwd: Seq<char>,
    now: i128,
    home: Option<Seq<char>>,
)
    ensures
        row_of(w, false, cwd, now, home) is Some <==> (w.origin matches Some(o) && components_of(o)
            == components_of(cwd)),
        row_of(w, true, cwd, now, home) is Some <==> w.origin is Some,
        forall|all: bool| #[trigger] row_of(w, all, cwd, now, home) matches Some(r) ==> r.id == w.id,
{
}

} // verus!
