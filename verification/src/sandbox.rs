//! The sandbox a command runs in: what it may write, what it may not read.
//!
//! On macOS the command runs under Seatbelt, given a profile that allows
//! everything by default, denies writing but to the paths allowed, denies
//! reading the hidden paths, and allows reading and writing the clone. The
//! paths are passed as parameters rather than written into the profile, so
//! they need no quoting, and must be canonical, as Seatbelt matches the path a
//! file is opened at after symbolic links are resolved.

use vstd::prelude::*;
use vstd::string::*;

use crate::invocation::{Invocation, InvocationView, strs};
use crate::path::{ancestors, ancestors_of, is_canonical, join, joined};
use crate::text::{decimal, decimal_string};

verus! {

/// One more path of a rule: ` (<kind> (param "<tag><i>"))`.
pub open spec fn rule_item(kind: Seq<char>, tag: Seq<char>, i: nat) -> Seq<char> {
    " ("@ + kind + " (param \""@ + tag + decimal(i) + "\"))"@
}

/// The paths of a rule, for `n` parameters named `<tag>0` on.
pub open spec fn rule_items(kind: Seq<char>, tag: Seq<char>, n: nat) -> Seq<char>
    decreases n,
{
    if n == 0 {
        Seq::empty()
    } else {
        rule_items(kind, tag, (n - 1) as nat) + rule_item(kind, tag, (n - 1) as nat)
    }
}

/// The parameters that name `paths`: `<tag><i>=<path>`.
pub open spec fn params_of(tag: Seq<char>, paths: Seq<Seq<char>>) -> Seq<Seq<char>> {
    Seq::new(paths.len(), |i: int| tag + decimal(i as nat) + "="@ + paths[i])
}

/// The Seatbelt profile for a command that may write only under `writable`
/// and to devices, and may not list, read, or write anything under `hidden`
/// except `clone`, which it may read and write.
///
/// Later rules win, so the hidden paths are denied after the writable ones,
/// and the clone, which may be under one of them, is allowed last. The
/// metadata of hidden paths stays readable, and so does what the directories
/// above the clone hold, which resolving a path in the clone and `getcwd`
/// need. A rule for `file-read-data` wins over one for `file-read*` whatever
/// their order, so it is allowed by name.
pub open spec fn profile_of(clone: Seq<char>, writable: Seq<Seq<char>>, hidden: Seq<Seq<char>>) -> Seq<char> {
    "(version 1)\n(allow default)\n(deny file-write*)\n"@ + "(allow file-write* (subpath \"/dev\")"@
        + rule_items("subpath"@, "W"@, writable.len()) + ")\n"@ + (if hidden.len() > 0 {
        "(deny file-read-data file-write*"@ + rule_items("subpath"@, "H"@, hidden.len())
            + ")\n(allow file-read-data"@ + rule_items(
            "literal"@,
            "A"@,
            ancestors_of(clone).len(),
        ) + ")\n"@
    } else {
        Seq::empty()
    }) + "(allow file-read* file-read-data file-write* (subpath (param \"CLONE\")))\n"@
}

/// The parameters the profile names, in the order they are given.
pub open spec fn profile_params_of(clone: Seq<char>, writable: Seq<Seq<char>>, hidden: Seq<Seq<char>>) -> Seq<Seq<char>> {
    params_of("W"@, writable) + (if hidden.len() > 0 {
        params_of("H"@, hidden) + params_of("A"@, ancestors_of(clone))
    } else {
        Seq::empty()
    }) + seq!["CLONE="@ + clone]
}

/// Each parameter, after `-D`.
pub open spec fn defines_of(params: Seq<Seq<char>>) -> Seq<Seq<char>>
    decreases params.len(),
{
    if params.len() == 0 {
        Seq::empty()
    } else {
        defines_of(params.drop_last()) + seq!["-D"@, params.last()]
    }
}

/// The command that runs `command` under Seatbelt with the profile.
pub open spec fn confine_of(
    command: Seq<Seq<char>>,
    clone: Seq<char>,
    writable: Seq<Seq<char>>,
    hidden: Seq<Seq<char>>,
) -> InvocationView {
    InvocationView {
        program: "/usr/bin/sandbox-exec"@,
        args: seq!["-p"@, profile_of(clone, writable, hidden)] + defines_of(
            profile_params_of(clone, writable, hidden),
        ) + seq!["--"@] + command,
        unset: Seq::empty(),
        set: Seq::empty(),
        dir: None,
    }
}

fn rules(profile: &mut String, kind: &str, tag: &str, n: usize)
    ensures
        final(profile)@ == old(profile)@ + rule_items(kind@, tag@, n as nat),
{
    let mut i: usize = 0;
    while i < n
        invariant
            i <= n,
            profile@ == old(profile)@ + rule_items(kind@, tag@, i as nat),
        decreases n - i,
    {
        profile.append(" (");
        profile.append(kind);
        profile.append(" (param \"");
        profile.append(tag);
        let d = decimal_string(i as u64);
        profile.append(d.as_str());
        profile.append("\"))");
        proof {
            assert(profile@ =~= old(profile)@ + rule_items(kind@, tag@, (i + 1) as nat));
        }
        i = i + 1;
    }
}

fn params(out: &mut Vec<String>, tag: &str, paths: &Vec<String>)
    ensures
        strs(final(out)@) == strs(old(out)@) + params_of(tag@, strs(paths@)),
{
    let mut i: usize = 0;
    while i < paths.len()
        invariant
            i <= paths@.len(),
            strs(out@) == strs(old(out)@) + params_of(tag@, strs(paths@).subrange(0, i as int)),
        decreases paths@.len() - i,
    {
        let mut p = tag.to_owned();
        let d = decimal_string(i as u64);
        p.append(d.as_str());
        p.append("=");
        p.append(paths[i].as_str());
        let ghost prev = strs(out@);
        let ghost pv = p@;
        out.push(p);
        proof {
            assert(strs(out@) =~= prev.push(pv));
            assert(params_of(tag@, strs(paths@).subrange(0, i + 1)) =~= params_of(
                tag@,
                strs(paths@).subrange(0, i as int),
            ).push(tag@ + decimal(i as nat) + "="@ + paths@[i as int]@));
            assert(strs(out@) =~= strs(old(out)@) + params_of(tag@, strs(paths@).subrange(0, i + 1)));
        }
        i = i + 1;
    }
    proof {
        assert(strs(paths@).subrange(0, paths@.len() as int) =~= strs(paths@));
    }
}

/// The profile for a command that may write only under `writable` and to
/// devices, and may not read anything under `hidden` except `clone`.
pub fn profile(clone: &str, writable: &Vec<String>, hidden: &Vec<String>) -> (r: (String, Vec<String>))
    requires
        is_canonical(clone@),
    ensures
        r.0@ == profile_of(clone@, strs(writable@), strs(hidden@)),
        strs(r.1@) == profile_params_of(clone@, strs(writable@), strs(hidden@)),
{
    let mut profile = "(version 1)\n(allow default)\n(deny file-write*)\n".to_owned();
    let mut ps: Vec<String> = Vec::new();
    profile.append("(allow file-write* (subpath \"/dev\")");
    rules(&mut profile, "subpath", "W", writable.len());
    params(&mut ps, "W", writable);
    profile.append(")\n");
    let ghost mid = profile@;
    let ghost mid_ps = strs(ps@);
    if hidden.len() > 0 {
        profile.append("(deny file-read-data file-write*");
        rules(&mut profile, "subpath", "H", hidden.len());
        params(&mut ps, "H", hidden);
        profile.append(")\n(allow file-read-data");
        let above = ancestors(clone);
        proof {
            assert(strs(above@) == ancestors_of(clone@));
        }
        rules(&mut profile, "literal", "A", above.len());
        params(&mut ps, "A", &above);
        profile.append(")\n");
        proof {
            assert(profile@ =~= mid + ("(deny file-read-data file-write*"@ + rule_items(
                "subpath"@,
                "H"@,
                hidden@.len(),
            ) + ")\n(allow file-read-data"@ + rule_items(
                "literal"@,
                "A"@,
                ancestors_of(clone@).len(),
            ) + ")\n"@));
            assert(strs(ps@) =~= mid_ps + (params_of("H"@, strs(hidden@)) + params_of(
                "A"@,
                ancestors_of(clone@),
            )));
        }
    } else {
        proof {
            assert(profile@ =~= mid + Seq::<char>::empty());
            assert(strs(ps@) =~= mid_ps + Seq::<Seq<char>>::empty());
        }
    }
    let ghost before_clone = profile@;
    profile.append("(allow file-read* file-read-data file-write* (subpath (param \"CLONE\")))\n");
    let mut c = "CLONE=".to_owned();
    c.append(clone);
    let ghost before_ps = strs(ps@);
    ps.push(c);
    proof {
        assert(strs(ps@) =~= before_ps + seq!["CLONE="@ + clone@]);
        assert(strs(ps@) =~= profile_params_of(clone@, strs(writable@), strs(hidden@)));
        assert(profile@ =~= profile_of(clone@, strs(writable@), strs(hidden@)));
    }
    (profile, ps)
}

/// A command that runs `command` under Seatbelt: it may write only under
/// `writable` and to devices, and may not list, read, or write anything under
/// `hidden` except `clone`, which it may read and write. Everything else, the
/// GPU and the network included, is allowed.
pub fn confine(command: &Vec<String>, clone: &str, writable: &Vec<String>, hidden: &Vec<String>) -> (c: Invocation)
    requires
        is_canonical(clone@),
    ensures
        c@ == confine_of(strs(command@), clone@, strs(writable@), strs(hidden@)),
{
    let (p, ps) = profile(clone, writable, hidden);
    let mut c = Invocation::new("/usr/bin/sandbox-exec");
    c.arg("-p");
    c.arg(p.as_str());
    proof {
        assert(strs(ps@).subrange(0, 0) =~= Seq::<Seq<char>>::empty());
        assert(defines_of(Seq::<Seq<char>>::empty()) == Seq::<Seq<char>>::empty());
        assert(c@.args =~= seq!["-p"@, p@] + Seq::<Seq<char>>::empty());
    }
    let mut i: usize = 0;
    while i < ps.len()
        invariant
            i <= ps@.len(),
            c@ == (InvocationView {
                program: "/usr/bin/sandbox-exec"@,
                args: seq!["-p"@, p@] + defines_of(strs(ps@).subrange(0, i as int)),
                unset: Seq::empty(),
                set: Seq::empty(),
                dir: None,
            }),
        decreases ps@.len() - i,
    {
        c.arg("-D");
        c.arg(ps[i].as_str());
        proof {
            let s = strs(ps@).subrange(0, i + 1);
            assert(s.drop_last() =~= strs(ps@).subrange(0, i as int));
            assert(c@.args =~= seq!["-p"@, p@] + defines_of(s));
        }
        i = i + 1;
    }
    proof {
        assert(strs(ps@).subrange(0, ps@.len() as int) =~= strs(ps@));
    }
    c.arg("--");
    let ghost before = c@.args;
    let mut k: usize = 0;
    while k < command.len()
        invariant
            k <= command@.len(),
            c@ == (InvocationView {
                program: "/usr/bin/sandbox-exec"@,
                args: before + strs(command@).subrange(0, k as int),
                unset: Seq::empty(),
                set: Seq::empty(),
                dir: None,
            }),
        decreases command@.len() - k,
    {
        c.arg(command[k].as_str());
        proof {
            assert(c@.args =~= before + strs(command@).subrange(0, k + 1));
        }
        k = k + 1;
    }
    proof {
        assert(strs(command@).subrange(0, command@.len() as int) =~= strs(command@));
        assert(c@.args =~= seq!["-p"@, p@] + defines_of(strs(ps@)) + seq!["--"@] + strs(command@));
    }
    c
}

/// The paths are passed as parameters, never written into the profile: its
/// text depends only on how many writable and hidden paths there are and,
/// when some are hidden, how many directories are above the clone.
pub proof fn lemma_profile_names_no_path(
    clone1: Seq<char>,
    writable1: Seq<Seq<char>>,
    hidden1: Seq<Seq<char>>,
    clone2: Seq<char>,
    writable2: Seq<Seq<char>>,
    hidden2: Seq<Seq<char>>,
)
    requires
        writable1.len() == writable2.len(),
        hidden1.len() == hidden2.len(),
        hidden1.len() > 0 ==> ancestors_of(clone1).len() == ancestors_of(clone2).len(),
    ensures
        profile_of(clone1, writable1, hidden1) == profile_of(clone2, writable2, hidden2),
{
}

} // verus!
