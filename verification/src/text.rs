//! Text as `hmm` handles it: prefixes, lines, trimming and decimal numbers,
//! over the characters of a string.

use vstd::prelude::*;
use vstd::string::*;

verus! {

/// Whether `p` is a prefix of `s`.
pub open spec fn is_prefix(p: Seq<char>, s: Seq<char>) -> bool {
    p.len() <= s.len() && s.subrange(0, p.len() as int) == p
}

/// Whether `s` starts with `p`.
pub fn starts_with(s: &str, p: &str) -> (b: bool)
    ensures
        b == is_prefix(p@, s@),
{
    let n = s.unicode_len();
    let m = p.unicode_len();
    if m > n {
        return false;
    }
    let mut i: usize = 0;
    while i < m
        invariant
            n == s@.len(),
            m == p@.len(),
            m <= n,
            i <= m,
            forall|j: int| 0 <= j < i ==> s@[j] == p@[j],
        decreases m - i,
    {
        if s.get_char(i) != p.get_char(i) {
            assert(s@.subrange(0, m as int)[i as int] != p@[i as int]);
            return false;
        }
        i = i + 1;
    }
    assert(s@.subrange(0, m as int) =~= p@);
    true
}

/// Whether `a` and `b` hold the same characters.
pub fn same(a: &str, b: &str) -> (r: bool)
    ensures
        r == (a@ == b@),
{
    if a.unicode_len() != b.unicode_len() {
        return false;
    }
    let r = starts_with(a, b);
    proof {
        assert(a@.subrange(0, a@.len() as int) =~= a@);
    }
    r
}

/// `s` split at each `sep`: the pieces between separators, in order, the
/// first before any separator and the last after all of them, each possibly
/// empty.
pub open spec fn split(s: Seq<char>, sep: char) -> Seq<Seq<char>>
    decreases s.len(),
{
    if s.len() == 0 {
        seq![Seq::empty()]
    } else {
        let p = split(s.drop_last(), sep);
        if s.last() == sep {
            p.push(Seq::empty())
        } else {
            p.update(p.len() - 1, p.last().push(s.last()))
        }
    }
}

pub proof fn lemma_split_len(s: Seq<char>, sep: char)
    ensures
        split(s, sep).len() >= 1,
    decreases s.len(),
{
    if s.len() > 0 {
        lemma_split_len(s.drop_last(), sep);
    }
}

/// `line` without the carriage return it ends with, if it does.
pub open spec fn strip_cr(line: Seq<char>) -> Seq<char> {
    if line.len() > 0 && line.last() == '\r' {
        line.drop_last()
    } else {
        line
    }
}

/// The lines of `s`, as `str::lines` gives them: the pieces between line
/// feeds, without a carriage return just before a line feed, and without an
/// empty piece after the last line feed.
pub open spec fn lines_of(s: Seq<char>) -> Seq<Seq<char>> {
    let pieces = split(s, '\n');
    let ended = pieces.drop_last().map_values(|l: Seq<char>| strip_cr(l));
    if pieces.last().len() == 0 {
        ended
    } else {
        ended.push(pieces.last())
    }
}

fn without_cr(line: &str) -> (r: String)
    ensures
        r@ == strip_cr(line@),
{
    let n = line.unicode_len();
    if n > 0 && line.get_char(n - 1) == '\r' {
        line.substring_char(0, n - 1).to_owned()
    } else {
        line.to_owned()
    }
}

/// `s` split at each `sep`.
pub fn split_on(s: &str, sep: char) -> (r: Vec<String>)
    ensures
        r@.map_values(|l: String| l@) == split(s@, sep),
{
    let n = s.unicode_len();
    let mut ended: Vec<String> = Vec::new();
    let mut start: usize = 0;
    let mut i: usize = 0;
    proof {
        assert(s@.subrange(0, 0) =~= Seq::<char>::empty());
        assert(ended@.map_values(|l: String| l@).push(s@.subrange(0, 0)) =~= seq![Seq::<char>::empty()]);
    }
    while i < n
        invariant
            n == s@.len(),
            start <= i <= n,
            split(s@.subrange(0, i as int), sep) == ended@.map_values(|l: String| l@).push(
                s@.subrange(start as int, i as int),
            ),
        decreases n - i,
    {
        let c = s.get_char(i);
        proof {
            assert(s@.subrange(0, i + 1).drop_last() =~= s@.subrange(0, i as int));
            assert(s@.subrange(0, i + 1).last() == c);
        }
        if c == sep {
            let piece = s.substring_char(start, i).to_owned();
            ended.push(piece);
            start = i + 1;
            proof {
                assert(s@.subrange(start as int, i + 1) =~= Seq::<char>::empty());
                assert(ended@.map_values(|l: String| l@).push(s@.subrange(start as int, i + 1))
                    =~= split(s@.subrange(0, i + 1), sep));
            }
        } else {
            proof {
                assert(s@.subrange(start as int, i + 1) =~= s@.subrange(start as int, i as int).push(
                    c,
                ));
                assert(ended@.map_values(|l: String| l@).push(s@.subrange(start as int, i + 1))
                    =~= split(s@.subrange(0, i + 1), sep));
            }
        }
        i = i + 1;
    }
    proof {
        assert(s@.subrange(0, n as int) =~= s@);
    }
    ended.push(s.substring_char(start, n).to_owned());
    proof {
        assert(ended@.map_values(|l: String| l@) =~= split(s@, sep));
    }
    ended
}

/// The lines of `s`.
pub fn lines(s: &str) -> (r: Vec<String>)
    ensures
        r@.map_values(|l: String| l@) == lines_of(s@),
{
    let mut pieces = split_on(s, '\n');
    let ghost all = split(s@, '\n');
    proof {
        lemma_split_len(s@, '\n');
        assert(pieces@.len() == all.len());
        assert forall|j: int| 0 <= j < pieces@.len() implies #[trigger] pieces@[j]@ == all[j] by {
            assert(pieces@.map_values(|l: String| l@)[j] == all[j]);
        }
    }
    let last = pieces.pop().unwrap();
    let mut r: Vec<String> = Vec::new();
    let mut k: usize = 0;
    while k < pieces.len()
        invariant
            all == split(s@, '\n'),
            all.len() == pieces@.len() + 1,
            last@ == all.last(),
            forall|j: int| 0 <= j < pieces@.len() ==> #[trigger] pieces@[j]@ == all[j],
            k <= pieces@.len(),
            r@.len() == k,
            forall|j: int| 0 <= j < k ==> #[trigger] r@[j]@ == strip_cr(all[j]),
        decreases pieces@.len() - k,
    {
        r.push(without_cr(pieces[k].as_str()));
        k = k + 1;
    }
    let nonempty = last.as_str().unicode_len() > 0;
    if nonempty {
        r.push(last);
    }
    proof {
        let ended_spec = all.drop_last().map_values(|l: Seq<char>| strip_cr(l));
        if nonempty {
            assert(r@.map_values(|l: String| l@) =~= ended_spec.push(all.last()));
        } else {
            assert(r@.map_values(|l: String| l@) =~= ended_spec);
        }
    }
    r
}

/// Whether `c` is white space, as `char::is_whitespace` says: the characters
/// with Unicode's `White_Space` property.
pub open spec fn is_space(c: char) -> bool {
    ||| c == '\t'
    ||| c == '\n'
    ||| c == '\u{0B}'
    ||| c == '\u{0C}'
    ||| c == '\r'
    ||| c == ' '
    ||| c == '\u{85}'
    ||| c == '\u{A0}'
    ||| c == '\u{1680}'
    ||| ('\u{2000}' <= c && c <= '\u{200A}')
    ||| c == '\u{2028}'
    ||| c == '\u{2029}'
    ||| c == '\u{202F}'
    ||| c == '\u{205F}'
    ||| c == '\u{3000}'
}

fn space(c: char) -> (b: bool)
    ensures
        b == is_space(c),
{
    c == '\t' || c == '\n' || c == '\u{0B}' || c == '\u{0C}' || c == '\r' || c == ' ' || c
        == '\u{85}' || c == '\u{A0}' || c == '\u{1680}' || ('\u{2000}' <= c && c <= '\u{200A}')
        || c == '\u{2028}' || c == '\u{2029}' || c == '\u{202F}' || c == '\u{205F}' || c
        == '\u{3000}'
}

/// `s` without the white space it starts and ends with, as `str::trim` gives
/// it: `s[a..b]`, where `a` is the first position not followed by white space
/// and `b` the last not preceded by it, or empty if `s` is all white space.
pub open spec fn trimmed(s: Seq<char>) -> Seq<char> {
    if forall|i: int| 0 <= i < s.len() ==> #[trigger] is_space(s[i]) {
        Seq::empty()
    } else {
        let a = choose|a: int|
            0 <= a < s.len() && !is_space(s[a]) && forall|i: int|
                0 <= i < a ==> #[trigger] is_space(s[i]);
        let z = choose|z: int|
            0 <= z < s.len() && !is_space(s[z]) && forall|i: int|
                z < i < s.len() ==> #[trigger] is_space(s[i]);
        s.subrange(a, z + 1)
    }
}

/// `s` without the white space it starts and ends with.
pub fn trim(s: &str) -> (r: String)
    ensures
        r@ == trimmed(s@),
{
    let n = s.unicode_len();
    let mut a: usize = 0;
    while a < n && space(s.get_char(a))
        invariant
            n == s@.len(),
            a <= n,
            forall|i: int| 0 <= i < a ==> #[trigger] is_space(s@[i]),
        decreases n - a,
    {
        a = a + 1;
    }
    if a == n {
        proof {
            reveal(trimmed);
        }
        return String::new();
    }
    let mut b: usize = n;
    while b > a && space(s.get_char(b - 1))
        invariant
            n == s@.len(),
            a < n,
            !is_space(s@[a as int]),
            a < b <= n || b == a,
            a <= b,
            forall|i: int| b <= i < n ==> #[trigger] is_space(s@[i]),
        decreases b,
    {
        b = b - 1;
    }
    proof {
        reveal(trimmed);
        if b == a {
            assert(false);
        }
        let ghost a2 = choose|a2: int|
            0 <= a2 < s@.len() && !is_space(s@[a2]) && forall|i: int|
                0 <= i < a2 ==> #[trigger] is_space(s@[i]);
        assert(a2 == a as int) by {
            if a2 < a {
                assert(is_space(s@[a2]));
            }
            if a2 > a {
                assert(is_space(s@[a as int]));
            }
        }
        let ghost z = choose|z: int|
            0 <= z < s@.len() && !is_space(s@[z]) && forall|i: int|
                z < i < s@.len() ==> #[trigger] is_space(s@[i]);
        assert(z + 1 == b as int) by {
            if z + 1 < b {
                assert(is_space(s@[b - 1]));
            }
            if z + 1 > b {
                assert(is_space(s@[z]));
            }
        }
    }
    s.substring_char(a, b).to_owned()
}

/// The decimal digit `d`, for `d < 10`.
pub open spec fn digit(d: nat) -> char {
    if d == 0 {
        '0'
    } else if d == 1 {
        '1'
    } else if d == 2 {
        '2'
    } else if d == 3 {
        '3'
    } else if d == 4 {
        '4'
    } else if d == 5 {
        '5'
    } else if d == 6 {
        '6'
    } else if d == 7 {
        '7'
    } else if d == 8 {
        '8'
    } else {
        '9'
    }
}

/// `n` written in decimal, without leading zeros.
pub open spec fn decimal(n: nat) -> Seq<char>
    decreases n,
{
    if n < 10 {
        seq![digit(n)]
    } else {
        decimal(n / 10).push(digit(n % 10))
    }
}

fn digit_str(d: u64) -> (r: &'static str)
    requires
        d < 10,
    ensures
        r@ == seq![digit(d as nat)],
{
    if d == 0 {
        proof {
            reveal_strlit("0");
        }
        "0"
    } else if d == 1 {
        proof {
            reveal_strlit("1");
        }
        "1"
    } else if d == 2 {
        proof {
            reveal_strlit("2");
        }
        "2"
    } else if d == 3 {
        proof {
            reveal_strlit("3");
        }
        "3"
    } else if d == 4 {
        proof {
            reveal_strlit("4");
        }
        "4"
    } else if d == 5 {
        proof {
            reveal_strlit("5");
        }
        "5"
    } else if d == 6 {
        proof {
            reveal_strlit("6");
        }
        "6"
    } else if d == 7 {
        proof {
            reveal_strlit("7");
        }
        "7"
    } else if d == 8 {
        proof {
            reveal_strlit("8");
        }
        "8"
    } else {
        proof {
            reveal_strlit("9");
        }
        "9"
    }
}

/// `n` written in decimal.
pub fn decimal_string(n: u64) -> (r: String)
    ensures
        r@ == decimal(n as nat),
    decreases n,
{
    if n < 10 {
        digit_str(n).to_owned()
    } else {
        let mut r = decimal_string(n / 10);
        r.append(digit_str(n % 10));
        r
    }
}

} // verus!
