//! `hmm run`: clones the working directory into a new workspace and runs a
//! command in it.

use vstd::prelude::*;
use vstd::string::*;

use crate::invocation::{copy_strings, push_string, Invocation, InvocationView, strs};
use crate::path::{is_canonical, join, joined};
use crate::sandbox::{confine_of, confine as seatbelt, params_of, profile_of, profile_params_of};
use crate::text::decimal;

verus! {

/// Run a command in a new workspace of the working directory.
pub struct Run {
    /// Whether to remove the workspace when the command exits.
    pub rm: bool,
    /// A name for the workspace, unique among the working directory's.
    pub name: Option<String>,
    /// Other paths the command may write to.
    pub write: Vec<String>,
    /// The command to run and its arguments; the shell if none.
    pub command: Vec<String>,
}

/// Directories under the home directory that commands may write to, so that
/// builds and package managers keep working.
pub open spec fn caches() -> Seq<Seq<char>> {
    seq![".cargo"@, ".rustup"@, ".cache"@, ".npm"@, "Library/Caches"@]
}

/// Directories under the home directory that commands may not read.
pub open spec fn secrets() -> Seq<Seq<char>> {
    seq![".ssh"@, ".aws"@, ".gnupg"@, ".config/gh"@]
}

/// Each of `names` under `home`.
pub open spec fn under(home: Seq<char>, names: Seq<Seq<char>>) -> Seq<Seq<char>> {
    names.map_values(|n: Seq<char>| joined(home, n))
}

/// The command to run: the one given, or the shell (`shell`, or `/bin/sh`
/// if it is not set) if none is.
pub open spec fn command_of(command: Seq<Seq<char>>, shell: Option<Seq<char>>) -> Seq<Seq<char>> {
    if command.len() == 0 {
        seq![
            match shell {
                Some(s) => s,
                None => "/bin/sh"@,
            },
        ]
    } else {
        command
    }
}

/// The exit code of `hmm run`: the command's, or 128 plus the number of the
/// signal that ended it, taken modulo 256 as an exit code is.
pub open spec fn exit_code_of(code: Option<i32>, signal: Option<i32>) -> u8 {
    let c: int = match code {
        Some(c) => c as int,
        None => 128 + match signal {
            Some(s) => s as int,
            None => 0,
        },
    };
    (c % 256) as u8
}

/// What `hmm run` says where the workspace is, when the command starts and,
/// unless the workspace is removed, when it exits.
pub open spec fn where_of(label: Seq<char>, tree: Seq<char>) -> Seq<char> {
    "hmm: workspace "@ + label + ": "@ + tree
}

fn push_under(v: &mut Vec<String>, home: &str, name: &str)
    ensures
        strs(final(v)@) == strs(old(v)@).push(joined(home@, name@)),
{
    v.push(join(home, name));
    proof {
        assert(strs(final(v)@) =~= strs(old(v)@).push(joined(home@, name@)));
    }
}

/// What `hmm run` does once the command has exited, or could not be run.
pub struct Finish {
    /// What to say of where the workspace is, if anything.
    pub message: Option<String>,
    /// Whether to remove the workspace.
    pub remove: bool,
}

impl Run {
    /// What `hmm run` does once the command has exited, for the workspace
    /// `label` whose tree is `tree`: with `--rm`, it removes the workspace, and
    /// otherwise says again where it is. When the command could not be run,
    /// only the removal is done.
    pub fn finished(&self, label: &str, tree: &str) -> (f: Finish)
        ensures
            f.remove == self.rm,
            self.rm ==> f.message is None,
            !self.rm ==> (f.message matches Some(m) && m@ == where_of(label@, tree@)),
    {
        if self.rm {
            Finish { message: None, remove: true }
        } else {
            Finish { message: Some(where_is(label, tree)), remove: false }
        }
    }

    /// The command to run: the one given, or the shell if none is.
    pub fn command(&self, shell: Option<String>) -> (c: Vec<String>)
        ensures
            strs(c@) == command_of(strs(self.command@), match shell {
                Some(s) => Some(s@),
                None => None,
            }),
    {
        if self.command.len() == 0 {
            let s = match shell {
                Some(s) => s,
                None => "/bin/sh".to_owned(),
            };
            let mut c: Vec<String> = Vec::new();
            c.push(s);
            proof {
                assert(strs(c@) =~= command_of(strs(self.command@), match shell {
                    Some(s) => Some(s@),
                    None => None,
                }));
            }
            c
        } else {
            copy_strings(&self.command)
        }
    }
}

/// The paths a command may write to, before they are resolved: the
/// temporary directories (`/tmp` and `temp_dir`) and the caches under `home`.
/// Those that cannot be resolved are left out.
pub fn writable(home: &str, temp_dir: &str) -> (w: Vec<String>)
    ensures
        strs(w@) == seq!["/tmp"@, temp_dir@] + under(home@, caches()),
{
    let mut w: Vec<String> = Vec::new();
    w.push("/tmp".to_owned());
    w.push(temp_dir.to_owned());
    push_under(&mut w, home, ".cargo");
    push_under(&mut w, home, ".rustup");
    push_under(&mut w, home, ".cache");
    push_under(&mut w, home, ".npm");
    push_under(&mut w, home, "Library/Caches");
    proof {
        assert(strs(w@) =~= seq!["/tmp"@, temp_dir@] + under(home@, caches()));
    }
    w
}

/// The paths a command may not read, before they are resolved: the secrets
/// under `home`. Those that cannot be resolved are left out.
pub fn hidden(home: &str) -> (h: Vec<String>)
    ensures
        strs(h@) == under(home@, secrets()),
{
    let mut h: Vec<String> = Vec::new();
    push_under(&mut h, home, ".ssh");
    push_under(&mut h, home, ".aws");
    push_under(&mut h, home, ".gnupg");
    push_under(&mut h, home, ".config/gh");
    proof {
        assert(strs(h@) =~= under(home@, secrets()));
    }
    h
}

/// The command that runs `command` in the workspace whose tree is `tree`,
/// confined to it: it may write to the tree and to `writable`, the resolved
/// temporary directories, caches and paths given with `-w`, and may not read
/// `secrets`, the resolved secrets, or the other workspaces under `root`.
pub fn confine(root: &str, tree: &str, writable: &Vec<String>, secrets: &Vec<String>, command: &Vec<String>) -> (c: Invocation)
    requires
        is_canonical(tree@),
    ensures
        c@ == (InvocationView {
            dir: Some(tree@),
            ..confine_of(strs(command@), tree@, strs(writable@), strs(secrets@).push(root@))
        }),
{
    let mut hidden = copy_strings(secrets);
    push_string(&mut hidden, root.to_owned());
    let mut c = seatbelt(command, tree, writable, &hidden);
    c.current_dir(tree);
    c
}

/// The exit code of `hmm run`, from the command's exit code, or, if a signal
/// ended it, the signal's number.
pub fn exit_code(code: Option<i32>, signal: Option<i32>) -> (r: u8)
    ensures
        r == exit_code_of(code, signal),
{
    let c: i64 = match code {
        Some(c) => c as i64,
        None => 128 + match signal {
            Some(s) => s as i64,
            None => 0,
        },
    };
    let d: u64 = (c + 8589934592) as u64;
    let m = d % 256;
    assert(m as int == (c as int) % 256);
    m as u8
}

/// What `hmm run` says of where the workspace `label` is: its tree.
pub fn where_is(label: &str, tree: &str) -> (m: String)
    ensures
        m@ == where_of(label@, tree@),
{
    let mut m = "hmm: workspace ".to_owned();
    m.append(label);
    m.append(": ");
    m.append(tree);
    m
}

/// The other workspaces are hidden, and the clone is the command's: whatever
/// the writable paths and secrets, the profile `hmm run` confines a command
/// with names the root of the workspaces among the hidden paths, every
/// writable path among the writable ones, and ends with the rule that allows
/// the clone, whose parameter is the last.
pub proof fn lemma_run_sandbox(
    clone: Seq<char>,
    writable: Seq<Seq<char>>,
    secrets: Seq<Seq<char>>,
    root: Seq<char>,
)
    ensures
        ({
            let hidden = secrets.push(root);
            let ps = profile_params_of(clone, writable, hidden);
            let rule = "(allow file-read* file-read-data file-write* (subpath (param \"CLONE\")))\n"@;
            let profile = profile_of(clone, writable, hidden);
            &&& ps.contains("H"@ + decimal(secrets.len()) + "="@ + root)
            &&& forall|i: int| 0 <= i < writable.len() ==> ps.contains("W"@ + decimal(i as nat) + "="@ + #[trigger] writable[i])
            &&& ps.last() == "CLONE="@ + clone
            &&& profile.len() >= rule.len()
            &&& profile.subrange(profile.len() - rule.len(), profile.len() as int) == rule
        }),
{
    let hidden = secrets.push(root);
    let ps = profile_params_of(clone, writable, hidden);
    let k = writable.len() + secrets.len();
    assert(params_of("H"@, hidden)[secrets.len() as int] == "H"@ + decimal(secrets.len()) + "="@ + root);
    assert(ps[k as int] == "H"@ + decimal(secrets.len()) + "="@ + root);
    assert forall|i: int| 0 <= i < writable.len() implies ps.contains("W"@ + decimal(i as nat) + "="@ + #[trigger] writable[i]) by {
        assert(ps[i] == params_of("W"@, writable)[i]);
    }
    let rule = "(allow file-read* file-read-data file-write* (subpath (param \"CLONE\")))\n"@;
    let profile = profile_of(clone, writable, hidden);
    let head = profile.subrange(0, profile.len() - rule.len());
    assert(profile.subrange(profile.len() - rule.len(), profile.len() as int) =~= rule);
}

} // verus!
