//! The decisions around building and running a workload: which build
//! arguments to pass, and how a finished command's output is judged.
use vstd::prelude::*;

verus! {

/// The arguments of the build of workload `name`; the graphics feature is
/// asked for only outside headless mode.
pub fn build_args<'a>(name: &'a str, headless: bool) -> (r: Vec<&'a str>)
    ensures
        r@.len() == if headless { 4int } else { 6int },
        r@[0]@ == "build"@,
        r@[1]@ == "--release"@,
        r@[2]@ == "--example"@,
        r@[3]@ == name@,
        !headless ==> r@[4]@ == "--features"@ && r@[5]@ == "with-graphics"@,
{
    let mut args: Vec<&'a str> = Vec::new();
    args.push("build");
    args.push("--release");
    args.push("--example");
    args.push(name);
    if !headless {
        args.push("--features");
        args.push("with-graphics");
    }
    args
}

/// A command that ended with a failure status, with what it printed.
#[derive(Clone, Debug)]
pub struct CommandFailure {
    /// The exit code, absent when the process was ended by a signal.
    pub code: Option<i32>,
    pub stdout: String,
    pub stderr: String,
}

/// The result of a finished command: its standard output when it succeeded,
/// otherwise its exit code and both outputs.
pub fn command_result(success: bool, code: Option<i32>, stdout: String, stderr: String) -> (r: Result<String, CommandFailure>)
    ensures
        success <==> r is Ok,
        r matches Ok(s) ==> s@ == stdout@,
        r matches Err(f) ==> f.code == code && f.stdout@ == stdout@ && f.stderr@ == stderr@,
{
    if success {
        Ok(stdout)
    } else {
        Err(CommandFailure { code, stdout, stderr })
    }
}

} // verus!
