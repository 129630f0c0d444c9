//! A pluggable stand-in for the current process, so that code reading
//! arguments, variables and standard streams can be exercised against a
//! recorded process in tests.  The real process's sources live outside
//! this crate; only the recorded one is modelled here.

use vstd::prelude::*;

verus! {

/// A source of a process identity.
pub trait ProcessSource {
    /// A unique id for the process.  Real process ids fit 32 bits;
    /// recorded test processes use ids above that range.
    fn id(&self) -> u64;
}

/// A recorded process: its working directory, arguments, variables,
/// standard input, and the output it has collected.
#[derive(Debug)]
pub struct TestProcess {
    pub cwd: String,
    pub args: Vec<String>,
    pub vars: Vec<(String, String)>,
    pub id: u64,
    pub stdin: String,
    pub stdout: Vec<u8>,
    pub stderr: Vec<u8>,
}

impl TestProcess {
    /// A fresh recorded process.  The caller supplies the id; drawing a
    /// random one is its concern.
    pub fn new(cwd: String, args: Vec<String>, vars: Vec<(String, String)>, stdin: String, id: u64)
        -> (r: TestProcess)
        ensures
            r.cwd@ == cwd@,
            r.args == args,
            r.vars == vars,
            r.stdin@ == stdin@,
            r.id == id,
            r.stdout@.len() == 0,
            r.stderr@.len() == 0,
    {
        TestProcess { cwd, args, vars, id, stdin, stdout: Vec::new(), stderr: Vec::new() }
    }

    /// Extracts the standard output collected so far.
    pub fn get_stdout(&self) -> (r: Vec<u8>)
        ensures
            r@ == self.stdout@,
    {
        copy_bytes(&self.stdout)
    }

    /// Extracts the standard error collected so far.
    pub fn get_stderr(&self) -> (r: Vec<u8>)
        ensures
            r@ == self.stderr@,
    {
        copy_bytes(&self.stderr)
    }

    /// The first value recorded under a variable name.
    pub fn var(&self, key: &str) -> (r: Option<&String>)
        ensures
            r matches Some(v) ==> exists|i: int| 0 <= i < self.vars@.len()
                && (#[trigger] self.vars@[i]).0@ == key@ && self.vars@[i].1@ == v@,
    {
        let mut i: usize = 0;
        while i < self.vars.len()
            decreases self.vars@.len() - i,
        {
            if crate::strutil::string_eq_str(&self.vars[i].0, key) {
                proof {
                    assert((self.vars@[i as int]).0@ == key@);
                    assert((self.vars@[i as int]).1@ == self.vars@[i as int].1@);
                }
                return Some(&self.vars[i].1);
            }
            i += 1;
        }
        None
    }
}

impl ProcessSource for TestProcess {
    fn id(&self) -> u64 {
        self.id
    }
}

fn copy_bytes(v: &Vec<u8>) -> (r: Vec<u8>)
    ensures
        r@ == v@,
{
    let mut r: Vec<u8> = Vec::new();
    let mut i: usize = 0;
    while i < v.len()
        invariant
            i <= v@.len(),
            r@ == v@.subrange(0, i as int),
        decreases v@.len() - i,
    {
        r.push(v[i]);
        proof {
            assert(r@ =~= v@.subrange(0, i + 1));
        }
        i += 1;
    }
    proof {
        assert(r@ =~= v@);
    }
    r
}

} // verus!
