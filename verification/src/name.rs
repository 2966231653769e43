//! Workspace names and IDs.

use vstd::prelude::*;
use vstd::string::*;

use crate::error::{Error, ErrorView};

verus! {

/// Whether `c` may stand in a workspace's name: an ASCII letter or digit,
/// `-`, `_` or `.`.
pub open spec fn is_name_char(c: char) -> bool {
    ||| ('0' <= c && c <= '9')
    ||| ('a' <= c && c <= 'z')
    ||| ('A' <= c && c <= 'Z')
    ||| c == '-'
    ||| c == '_'
    ||| c == '.'
}

/// Whether `s` can name a workspace: not empty, not starting with `-`, and
/// made of name characters only.
pub open spec fn is_valid_name(s: Seq<char>) -> bool {
    &&& s.len() > 0
    &&& s[0] != '-'
    &&& forall|i: int| 0 <= i < s.len() ==> #[trigger] is_name_char(s[i])
}

fn name_char(c: char) -> (b: bool)
    ensures
        b == is_name_char(c),
{
    ('0' <= c && c <= '9') || ('a' <= c && c <= 'z') || ('A' <= c && c <= 'Z') || c == '-' || c
        == '_' || c == '.'
}

/// Whether `name` can name a workspace.
pub fn valid_name(name: &str) -> (b: bool)
    ensures
        b == is_valid_name(name@),
{
    let n = name.unicode_len();
    if n == 0 {
        return false;
    }
    if name.get_char(0) == '-' {
        return false;
    }
    let mut i: usize = 0;
    while i < n
        invariant
            n == name@.len(),
            i <= n,
            forall|j: int| 0 <= j < i ==> #[trigger] is_name_char(name@[j]),
        decreases n - i,
    {
        if !name_char(name.get_char(i)) {
            return false;
        }
        i = i + 1;
    }
    true
}

/// Checks that `name` can name a workspace.
pub fn check(name: &str) -> (r: Result<(), Error>)
    ensures
        r is Ok <==> is_valid_name(name@),
        r matches Err(e) ==> e@ == (ErrorView::InvalidName { name: name@ }),
{
    if valid_name(name) {
        Ok(())
    } else {
        Err(Error::InvalidName { name: name.to_owned() })
    }
}

/// The number of letters in a workspace's ID.
pub const ID_LEN: usize = 6;

/// The letters of a workspace's ID: digits and lowercase letters, without the
/// ones easily mistaken for others (`i`, `l`, `o`, `u`).
pub open spec fn alphabet() -> Seq<char> {
    "0123456789abcdefghjkmnpqrstvwxyz"@
}

/// The ID that `entropy` makes: each byte picks the letter of the alphabet
/// at its remainder by 32.
pub open spec fn id_of(entropy: Seq<u8>) -> Seq<char> {
    Seq::new(entropy.len(), |i: int| alphabet()[(entropy[i] % 32) as int])
}

/// The workspace ID that the random bytes `entropy` make.
pub fn id_from_entropy(entropy: &[u8; ID_LEN]) -> (id: String)
    ensures
        id@ == id_of(entropy@),
{
    let letters = "0123456789abcdefghjkmnpqrstvwxyz";
    proof {
        reveal_strlit("0123456789abcdefghjkmnpqrstvwxyz");
    }
    assert(letters@.len() == 32);
    let mut id = String::new();
    let mut i: usize = 0;
    while i < ID_LEN
        invariant
            letters@ == alphabet(),
            letters@.len() == 32,
            entropy@.len() == ID_LEN,
            i <= ID_LEN,
            id@ =~= id_of(entropy@.subrange(0, i as int)),
        decreases ID_LEN - i,
    {
        let k = (entropy[i] % 32) as usize;
        let letter = letters.substring_char(k, k + 1);
        id.append(letter);
        proof {
            assert(id_of(entropy@.subrange(0, i + 1)) =~= id_of(entropy@.subrange(0, i as int)).push(
                alphabet()[k as int],
            ));
        }
        i = i + 1;
    }
    proof {
        assert(entropy@.subrange(0, ID_LEN as int) =~= entropy@);
    }
    id
}

/// Every workspace ID is `ID_LEN` letters of the alphabet, none of them `i`,
/// `l`, `o` or `u`.
pub proof fn lemma_id_letters(entropy: Seq<u8>)
    requires
        entropy.len() == ID_LEN,
    ensures
        id_of(entropy).len() == ID_LEN,
        forall|i: int| 0 <= i < ID_LEN ==> alphabet().contains(#[trigger] id_of(entropy)[i]),
        forall|i: int|
            0 <= i < ID_LEN ==> {
                let c = #[trigger] id_of(entropy)[i];
                c != 'i' && c != 'l' && c != 'o' && c != 'u'
            },
{
    reveal_strlit("0123456789abcdefghjkmnpqrstvwxyz");
    assert(alphabet() =~= seq![
        '0', '1', '2', '3', '4', '5', '6', '7', '8', '9', 'a', 'b', 'c', 'd', 'e', 'f', 'g', 'h',
        'j', 'k', 'm', 'n', 'p', 'q', 'r', 's', 't', 'v', 'w', 'x', 'y', 'z'
    ]);
    assert forall|i: int| 0 <= i < ID_LEN implies alphabet().contains(#[trigger] id_of(entropy)[i]) by {
        let k = (entropy[i] % 32) as int;
        assert(alphabet()[k] == id_of(entropy)[i]);
    }
}

/// Whether `c` is a hexadecimal digit.
pub open spec fn is_hex_digit(c: char) -> bool {
    ('0' <= c && c <= '9') || ('a' <= c && c <= 'f') || ('A' <= c && c <= 'F')
}

/// Whether `id` looks like a commit's ID: 40 or 64 hexadecimal digits.
pub open spec fn is_commit_id(id: Seq<char>) -> bool {
    &&& (id.len() == 40 || id.len() == 64)
    &&& forall|i: int| 0 <= i < id.len() ==> #[trigger] is_hex_digit(id[i])
}

/// Whether `id` looks like a commit's ID: 40 or 64 hexadecimal digits.
pub fn is_commit(id: &str) -> (b: bool)
    ensures
        b == is_commit_id(id@),
{
    let n = id.unicode_len();
    if n != 40 && n != 64 {
        return false;
    }
    let mut i: usize = 0;
    while i < n
        invariant
            n == id@.len(),
            i <= n,
            forall|j: int| 0 <= j < i ==> #[trigger] is_hex_digit(id@[j]),
        decreases n - i,
    {
        let c = id.get_char(i);
        if !(('0' <= c && c <= '9') || ('a' <= c && c <= 'f') || ('A' <= c && c <= 'F')) {
            assert(!is_hex_digit(id@[i as int]));
            return false;
        }
        i = i + 1;
    }
    true
}

/// Names are ASCII letters, digits, `-`, `_` and `.`: every one of these is a
/// name character, and nothing else is; a name is valid exactly when it is
/// not empty, does not start with `-`, and holds only these.
pub proof fn lemma_name_chars(n: Seq<char>)
    ensures
        forall|c: char| #[trigger] is_name_char(c) <==> (('a' <= c && c <= 'z') || ('A' <= c && c <= 'Z')
            || ('0' <= c && c <= '9') || c == '-' || c == '_' || c == '.'),
        is_valid_name(n) <==> (n.len() > 0 && n[0] != '-' && forall|i: int| 0 <= i < n.len() ==> (('a'
            <= #[trigger] n[i] && n[i] <= 'z') || ('A' <= n[i] && n[i] <= 'Z') || ('0' <= n[i] && n[i]
            <= '9') || n[i] == '-' || n[i] == '_' || n[i] == '.')),
{
    if is_valid_name(n) {
        assert forall|i: int| 0 <= i < n.len() implies (('a' <= #[trigger] n[i] && n[i] <= 'z') || ('A'
            <= n[i] && n[i] <= 'Z') || ('0' <= n[i] && n[i] <= '9') || n[i] == '-' || n[i] == '_'
            || n[i] == '.') by {
            assert(is_name_char(n[i]));
        }
    }
    if n.len() > 0 && n[0] != '-' && forall|i: int| 0 <= i < n.len() ==> (('a' <= #[trigger] n[i]
        && n[i] <= 'z') || ('A' <= n[i] && n[i] <= 'Z') || ('0' <= n[i] && n[i] <= '9') || n[i] == '-'
        || n[i] == '_' || n[i] == '.') {
        assert forall|i: int| 0 <= i < n.len() implies #[trigger] is_name_char(n[i]) by {
            let c = n[i];
        }
    }
}

} // verus!
