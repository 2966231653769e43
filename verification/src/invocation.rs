//! Commands to run, as values: the program, its arguments, the environment
//! variables to remove and to set, and the directory to run it in.

use vstd::prelude::*;
use vstd::string::*;

verus! {

/// A command to run.
pub struct Invocation {
    /// The program.
    pub program: String,
    /// Its arguments.
    pub args: Vec<String>,
    /// The environment variables to remove.
    pub unset: Vec<String>,
    /// The environment variables to set, after those are removed.
    pub set: Vec<(String, String)>,
    /// The directory to run it in, if not the current one.
    pub dir: Option<String>,
}

/// A command to run, its text taken by its characters.
pub struct InvocationView {
    pub program: Seq<char>,
    pub args: Seq<Seq<char>>,
    pub unset: Seq<Seq<char>>,
    pub set: Seq<(Seq<char>, Seq<char>)>,
    pub dir: Option<Seq<char>>,
}

/// Strings taken by their characters.
pub open spec fn strs(v: Seq<String>) -> Seq<Seq<char>> {
    v.map_values(|s: String| s@)
}

/// Pairs of strings taken by their characters.
pub open spec fn pairs(v: Seq<(String, String)>) -> Seq<(Seq<char>, Seq<char>)> {
    v.map_values(|p: (String, String)| (p.0@, p.1@))
}

impl View for Invocation {
    type V = InvocationView;

    open spec fn view(&self) -> InvocationView {
        InvocationView {
            program: self.program@,
            args: strs(self.args@),
            unset: strs(self.unset@),
            set: pairs(self.set@),
            dir: match self.dir {
                Some(d) => Some(d@),
                None => None,
            },
        }
    }
}

/// `v` with `s` added at the end.
pub fn push_str(v: &mut Vec<String>, s: &str)
    ensures
        strs(final(v)@) == strs(old(v)@).push(s@),
{
    v.push(s.to_owned());
    proof {
        assert(strs(final(v)@) =~= strs(old(v)@).push(s@));
    }
}

/// `v` with `s` added at the end.
pub fn push_string(v: &mut Vec<String>, s: String)
    ensures
        strs(final(v)@) == strs(old(v)@).push(s@),
{
    let ghost sv = s@;
    v.push(s);
    proof {
        assert(strs(final(v)@) =~= strs(old(v)@).push(sv));
    }
}

/// A copy of `v`.
pub fn copy_strings(v: &Vec<String>) -> (c: Vec<String>)
    ensures
        strs(c@) == strs(v@),
{
    let mut c: Vec<String> = Vec::new();
    let mut i: usize = 0;
    while i < v.len()
        invariant
            i <= v@.len(),
            strs(c@) == strs(v@).subrange(0, i as int),
        decreases v@.len() - i,
    {
        push_string(&mut c, v[i].clone());
        proof {
            assert(strs(c@) =~= strs(v@).subrange(0, i + 1));
        }
        i = i + 1;
    }
    proof {
        assert(strs(v@).subrange(0, v@.len() as int) =~= strs(v@));
    }
    c
}

/// Strings holding the characters of `items`, in order.
pub fn strings(items: &[&str]) -> (v: Vec<String>)
    ensures
        strs(v@) == items@.map_values(|s: &str| s@),
{
    let mut v: Vec<String> = Vec::new();
    let mut i: usize = 0;
    while i < items.len()
        invariant
            i <= items@.len(),
            strs(v@) == items@.subrange(0, i as int).map_values(|s: &str| s@),
        decreases items@.len() - i,
    {
        push_str(&mut v, items[i]);
        proof {
            assert(items@.subrange(0, i + 1).map_values(|s: &str| s@) =~= items@.subrange(
                0,
                i as int,
            ).map_values(|s: &str| s@).push(items@[i as int]@));
        }
        i = i + 1;
    }
    proof {
        assert(items@.subrange(0, items@.len() as int) =~= items@);
    }
    v
}

impl Invocation {
    /// A command that runs `program` with no arguments, in the current
    /// directory and environment.
    pub fn new(program: &str) -> (c: Invocation)
        ensures
            c@ == (InvocationView {
                program: program@,
                args: Seq::empty(),
                unset: Seq::empty(),
                set: Seq::empty(),
                dir: None,
            }),
    {
        let c = Invocation {
            program: program.to_owned(),
            args: Vec::new(),
            unset: Vec::new(),
            set: Vec::new(),
            dir: None,
        };
        proof {
            assert(strs(c.args@) =~= Seq::empty());
            assert(strs(c.unset@) =~= Seq::empty());
            assert(pairs(c.set@) =~= Seq::empty());
        }
        c
    }

    /// Adds an argument.
    pub fn arg(&mut self, a: &str)
        ensures
            final(self)@ == (InvocationView { args: old(self)@.args.push(a@), ..old(self)@ }),
    {
        push_str(&mut self.args, a);
    }

    /// Adds arguments, in order.
    pub fn args(&mut self, items: &[&str])
        ensures
            final(self)@ == (InvocationView {
                args: old(self)@.args + items@.map_values(|s: &str| s@),
                ..old(self)@
            }),
    {
        let mut i: usize = 0;
        while i < items.len()
            invariant
                i <= items@.len(),
                self@ == (InvocationView {
                    args: old(self)@.args + items@.subrange(0, i as int).map_values(|s: &str| s@),
                    ..old(self)@
                }),
            decreases items@.len() - i,
        {
            self.arg(items[i]);
            proof {
                assert(items@.subrange(0, i + 1).map_values(|s: &str| s@) =~= items@.subrange(
                    0,
                    i as int,
                ).map_values(|s: &str| s@).push(items@[i as int]@));
                assert(old(self)@.args + items@.subrange(0, i + 1).map_values(|s: &str| s@) =~= (
                old(self)@.args + items@.subrange(0, i as int).map_values(|s: &str| s@)).push(
                    items@[i as int]@,
                ));
            }
            i = i + 1;
        }
        proof {
            assert(items@.subrange(0, items@.len() as int) =~= items@);
        }
    }

    /// Removes an environment variable.
    pub fn env_remove(&mut self, key: &str)
        ensures
            final(self)@ == (InvocationView { unset: old(self)@.unset.push(key@), ..old(self)@ }),
    {
        push_str(&mut self.unset, key);
    }

    /// Sets an environment variable.
    pub fn env(&mut self, key: &str, value: &str)
        ensures
            final(self)@ == (InvocationView {
                set: old(self)@.set.push((key@, value@)),
                ..old(self)@
            }),
    {
        self.set.push((key.to_owned(), value.to_owned()));
        proof {
            assert(pairs(self.set@) =~= pairs(old(self).set@).push((key@, value@)));
        }
    }

    /// Sets the directory to run in.
    pub fn current_dir(&mut self, dir: &str)
        ensures
            final(self)@ == (InvocationView { dir: Some(dir@), ..old(self)@ }),
    {
        self.dir = Some(dir.to_owned());
    }
}

} // verus!
