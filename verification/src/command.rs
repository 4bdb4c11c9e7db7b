//! The command-runner abstraction: the engine asks a runner to execute an
//! argument list and hands back the captured outcome. A mock runner with
//! scripted expectations serves the contract tests.

use crate::table::Table;
use vstd::prelude::*;

verus! {

/// The captured outcome of one subprocess invocation.
pub struct CmdOutput {
    pub success: bool,
    pub stdout: String,
    pub stderr: String,
}

/// Something that can run a program with arguments and report the
/// captured outcome, or a message when the program could not be run at
/// all. Implementations outside this crate perform real subprocess work;
/// nothing is assumed here about what they return.
pub trait CommandRunner {
    fn run(&mut self, program: &String, args: &Vec<String>) -> Result<CmdOutput, String>;
}

/// The lookup key a mock expectation is stored under: the program name
/// and the arguments, space-separated.
pub open spec fn spec_cmd_key(program: Seq<char>, args: Seq<Seq<char>>) -> Seq<char>
    decreases args.len(),
{
    if args.len() == 0 {
        program
    } else {
        spec_cmd_key(program + " "@ + args[0], args.skip(1))
    }
}

/// One scripted expectation of the mock runner.
pub struct MockExpectation {
    pub args: Vec<String>,
    pub stdout: String,
    pub stderr: String,
    pub success: bool,
}

/// A command runner that answers from scripted expectations instead of
/// running anything; unscripted commands are reported as failures to run.
pub struct MockCommandRunner {
    pub expectations: Table<MockExpectation>,
}

/// The mock's key for a program and argument list.
fn cmd_key(program: &String, args: &Vec<String>) -> (r: String)
    ensures
        r@ == spec_cmd_key(program@, args@.map_values(|s: String| s@)),
{
    let mut key = program.clone();
    let ghost views = args@.map_values(|s: String| s@);
    let mut i: usize = 0;
    proof {
        assert(views.skip(0) =~= views);
    }
    while i < args.len()
        invariant
            i <= args@.len(),
            views == args@.map_values(|s: String| s@),
            spec_cmd_key(program@, views) == spec_cmd_key(key@, views.skip(i as int)),
        decreases args@.len() - i,
    {
        proof {
            assert(views.skip(i as int)[0] == views[i as int]);
            assert(views[i as int] == args@[i as int]@);
            assert(views.skip(i as int).skip(1) =~= views.skip(i + 1));
        }
        key.append(" ");
        key.append(args[i].as_str());
        i = i + 1;
    }
    proof {
        assert(views.skip(i as int) =~= Seq::<Seq<char>>::empty());
        assert(spec_cmd_key(key@, views.skip(i as int)) == key@);
    }
    key
}

impl MockCommandRunner {
    /// A mock with no expectations.
    pub fn new() -> (r: Self)
        ensures
            forall|n: Seq<char>| r.expectations.spec_get(n) is None,
    {
        MockCommandRunner { expectations: Table::new() }
    }

    /// Script the outcome of one exact program-and-arguments invocation.
    pub fn expect(&mut self, program: &String, args: &Vec<String>, stdout: &str, success: bool)
        ensures
            (match final(self).expectations.spec_get(
                spec_cmd_key(program@, args@.map_values(|s: String| s@)),
            ) {
                Some(e) => e.args@ == args@ && e.stdout@ == stdout@ && e.stderr@ == ""@
                    && e.success == success,
                None => false,
            }),
            forall|n: Seq<char>|
                n != spec_cmd_key(program@, args@.map_values(|s: String| s@))
                    ==> final(self).expectations.spec_get(n) == old(self).expectations.spec_get(
                    n,
                ),
    {
        let key = cmd_key(program, args);
        let mut args_copy: Vec<String> = Vec::new();
        let mut i: usize = 0;
        while i < args.len()
            invariant
                i <= args@.len(),
                args_copy@ == args@.subrange(0, i as int),
            decreases args@.len() - i,
        {
            args_copy.push(args[i].clone());
            i = i + 1;
            proof {
                assert(args_copy@ =~= args@.subrange(0, i as int));
            }
        }
        proof {
            assert(args_copy@ =~= args@);
        }
        proof {
            reveal_strlit("");
            assert(""@ =~= Seq::<char>::empty());
        }
        let expectation = MockExpectation {
            args: args_copy,
            stdout: stdout.to_owned(),
            stderr: String::new(),
            success,
        };
        self.expectations.set(key, expectation);
    }

    /// Answer one invocation from the scripted expectations: the scripted
    /// outcome when the exact program and arguments were registered, and
    /// a failure to run naming the command otherwise.
    pub fn lookup(&self, program: &String, args: &Vec<String>) -> (r: Result<CmdOutput, String>)
        ensures
            (match self.expectations.spec_get(
                spec_cmd_key(program@, args@.map_values(|s: String| s@)),
            ) {
                Some(e) => r matches Ok(o) && o.success == e.success && o.stdout@ == e.stdout@
                    && o.stderr@ == e.stderr@,
                None => r matches Err(m) && m@ == "unexpected command: "@ + spec_cmd_key(
                    program@,
                    args@.map_values(|s: String| s@),
                ),
            }),
    {
        let key = cmd_key(program, args);
        match self.expectations.get(&key) {
            Some(e) => Ok(
                CmdOutput {
                    success: e.success,
                    stdout: e.stdout.clone(),
                    stderr: e.stderr.clone(),
                },
            ),
            None => {
                let mut msg = "unexpected command: ".to_owned();
                msg.append(key.as_str());
                Err(msg)
            },
        }
    }
}

impl CommandRunner for MockCommandRunner {
    fn run(&mut self, program: &String, args: &Vec<String>) -> Result<CmdOutput, String> {
        self.lookup(program, args)
    }
}

} // verus!
