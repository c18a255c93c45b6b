//! The actions that a script runs, and the process invocations they turn into.
use vstd::prelude::*;
use crate::args::{
    cwd_from, env_overrides_from, forwarded_args, forwarded_from, get_cwd, get_extra_envs, strings_view, unprefixed_args,
    unprefixed_from,
};
use crate::env::{env_view, merge_env};
use crate::text::same_text;

verus! {

/// Program that runs a command line through the command interpreter.
pub const CMD_PROGRAM: &'static str = "cmd";

/// Switch that hands the command interpreter one command line.
pub const CMD_SWITCH: &'static str = "/C";

/// Program that runs a PowerShell command.
pub const PWSH_PROGRAM: &'static str = "powershell";

/// Switch that hands PowerShell one command.
pub const PWSH_SWITCH: &'static str = "-Command";

/// What `echo` prints when it is given nothing.
pub const NO_MESSAGE: &'static str = "No message provided, please check your configuration.";

/// A child process to start: program, arguments, working directory, environment.
pub struct Invocation {
    pub program: String,
    pub args: Vec<String>,
    pub cwd: String,
    pub env: Vec<(String, String)>,
}

/// The working directory and environment that every invocation built from
/// `args` gets.
pub open spec fn placed(r: Invocation, args: Seq<String>, current_dir: Seq<char>, base: Seq<(String, String)>) -> bool {
    &&& r.cwd@ == match cwd_from(args, 1) {
        Some(d) => d,
        None => current_dir,
    }
    &&& env_view(r.env@) == merge_env(env_view(base), env_overrides_from(args, 1))
}

/// Runs the first parameter as a command line of the command interpreter.
pub fn cmd(args: &[String], current_dir: &String, base_env: &Vec<(String, String)>) -> (r: Invocation)
    requires
        args@.len() >= 1,
    ensures
        r.program@ == CMD_PROGRAM@,
        strings_view(r.args@) == seq![CMD_SWITCH@, args@[0]@],
        placed(r, args@, current_dir@, base_env@),
{
    let a = vec![CMD_SWITCH.to_owned(), args[0].clone()];
    assert(strings_view(a@) =~= seq![CMD_SWITCH@, args@[0]@]);
    Invocation {
        program: CMD_PROGRAM.to_owned(),
        args: a,
        cwd: get_cwd(args, current_dir),
        env: get_extra_envs(args, base_env),
    }
}

/// Runs the first parameter as a PowerShell command.
pub fn pwsh(args: &[String], current_dir: &String, base_env: &Vec<(String, String)>) -> (r: Invocation)
    requires
        args@.len() >= 1,
    ensures
        r.program@ == PWSH_PROGRAM@,
        strings_view(r.args@) == seq![PWSH_SWITCH@, args@[0]@],
        placed(r, args@, current_dir@, base_env@),
{
    let a = vec![PWSH_SWITCH.to_owned(), args[0].clone()];
    assert(strings_view(a@) =~= seq![PWSH_SWITCH@, args@[0]@]);
    Invocation {
        program: PWSH_PROGRAM.to_owned(),
        args: a,
        cwd: get_cwd(args, current_dir),
        env: get_extra_envs(args, base_env),
    }
}

/// Runs the first parameter as a program. Its arguments are all the parameters,
/// the first one included, that do not start with the prefix of the reserved
/// markers.
pub fn run(args: &[String], current_dir: &String, base_env: &Vec<(String, String)>) -> (r: Invocation)
    requires
        args@.len() >= 1,
    ensures
        r.program@ == args@[0]@,
        strings_view(r.args@) == unprefixed_from(args@, 0),
        placed(r, args@, current_dir@, base_env@),
{
    Invocation {
        program: args[0].clone(),
        args: unprefixed_args(args),
        cwd: get_cwd(args, current_dir),
        env: get_extra_envs(args, base_env),
    }
}

/// The launch under the trusted service's identity that the parameters ask for:
/// the first parameter is the program, and the parameters after it that carry
/// no reserved marker are its arguments.
pub fn ti_run(args: &[String], current_dir: &String, base_env: &Vec<(String, String)>) -> (r: Invocation)
    requires
        args@.len() >= 1,
    ensures
        r.program@ == args@[0]@,
        strings_view(r.args@) == forwarded_from(args@, 1),
        placed(r, args@, current_dir@, base_env@),
{
    Invocation {
        program: args[0].clone(),
        args: forwarded_args(args),
        cwd: get_cwd(args, current_dir),
        env: get_extra_envs(args, base_env),
    }
}

/// The ways a command can be run.
#[derive(PartialEq, Eq, Structural, Clone, Copy, Debug)]
pub enum Runner {
    Cmd,
    Pwsh,
    Run,
    TrustedRun,
}

/// What one action of a script comes to.
pub enum ActionStep {
    /// Print a message.
    Echo(String),
    /// Start a process, in the way given.
    Launch(Runner, Invocation),
    /// A runner was named with no command to run.
    MissingCommand(Runner),
    /// The action's name is none that is known.
    Unknown,
}

/// The runner that an action's name selects.
pub open spec fn runner_of(name: Seq<char>) -> Option<Runner> {
    if name == "cmd"@ {
        Some(Runner::Cmd)
    } else if name == "pwsh"@ {
        Some(Runner::Pwsh)
    } else if name == "run"@ {
        Some(Runner::Run)
    } else if name == "ti_run"@ {
        Some(Runner::TrustedRun)
    } else {
        None
    }
}

/// The runner that an action's name selects.
fn runner_for(name: &str) -> (r: Option<Runner>)
    ensures
        r == runner_of(name@),
{
    if same_text(name, "cmd") {
        Some(Runner::Cmd)
    } else if same_text(name, "pwsh") {
        Some(Runner::Pwsh)
    } else if same_text(name, "run") {
        Some(Runner::Run)
    } else if same_text(name, "ti_run") {
        Some(Runner::TrustedRun)
    } else {
        None
    }
}

/// The invocation that a runner makes of the parameters.
pub fn invocation_for(runner: Runner, args: &[String], current_dir: &String, base_env: &Vec<(String, String)>) -> (r: Invocation)
    requires
        args@.len() >= 1,
    ensures
        placed(r, args@, current_dir@, base_env@),
        runner == Runner::Cmd ==> r.program@ == CMD_PROGRAM@ && strings_view(r.args@) == seq![CMD_SWITCH@, args@[0]@],
        runner == Runner::Pwsh ==> r.program@ == PWSH_PROGRAM@ && strings_view(r.args@) == seq![PWSH_SWITCH@, args@[0]@],
        runner == Runner::Run ==> r.program@ == args@[0]@ && strings_view(r.args@) == unprefixed_from(args@, 0),
        runner == Runner::TrustedRun ==> r.program@ == args@[0]@ && strings_view(r.args@) == forwarded_from(args@, 1),
{
    match runner {
        Runner::Cmd => cmd(args, current_dir, base_env),
        Runner::Pwsh => pwsh(args, current_dir, base_env),
        Runner::Run => run(args, current_dir, base_env),
        Runner::TrustedRun => ti_run(args, current_dir, base_env),
    }
}

/// What the action named `action_name` with `parameters` comes to. `echo`
/// prints its first parameter; `cmd`, `pwsh`, `run` and `ti_run` start a
/// process from the parameters, of which the first is the command.
pub fn execute_action(
    action_name: &str,
    parameters: &Option<Vec<String>>,
    current_dir: &String,
    base_env: &Vec<(String, String)>,
) -> (r: ActionStep)
    ensures
        action_name@ == "echo"@ ==> match r {
            ActionStep::Echo(m) => m@ == match parameters {
                Some(p) if p@.len() > 0 => p@[0]@,
                _ => NO_MESSAGE@,
            },
            _ => false,
        },
        action_name@ != "echo"@ && runner_of(action_name@) is None ==> r is Unknown,
        runner_of(action_name@) matches Some(k) ==> match parameters {
            Some(p) if p@.len() > 0 => match r {
                ActionStep::Launch(k2, inv) => k2 == k
                    && placed(inv, p@, current_dir@, base_env@)
                    && (k == Runner::Cmd ==> inv.program@ == CMD_PROGRAM@
                        && strings_view(inv.args@) == seq![CMD_SWITCH@, p@[0]@])
                    && (k == Runner::Pwsh ==> inv.program@ == PWSH_PROGRAM@
                        && strings_view(inv.args@) == seq![PWSH_SWITCH@, p@[0]@])
                    && (k == Runner::Run ==> inv.program@ == p@[0]@
                        && strings_view(inv.args@) == unprefixed_from(p@, 0))
                    && (k == Runner::TrustedRun ==> inv.program@ == p@[0]@
                        && strings_view(inv.args@) == forwarded_from(p@, 1)),
                _ => false,
            },
            _ => r == ActionStep::MissingCommand(k),
        },
{
    if same_text(action_name, "echo") {
        proof {
            reveal_strlit("echo");
            reveal_strlit("cmd");
            reveal_strlit("pwsh");
            reveal_strlit("run");
            reveal_strlit("ti_run");
            assert("echo"@.len() != "cmd"@.len());
            assert("echo"@[0] != "pwsh"@[0]);
            assert("echo"@.len() != "run"@.len());
            assert("echo"@.len() != "ti_run"@.len());
        }
        return match parameters {
            Some(p) if p.len() > 0 => ActionStep::Echo(p[0].clone()),
            _ => ActionStep::Echo(NO_MESSAGE.to_owned()),
        };
    }
    match runner_for(action_name) {
        Some(k) => match parameters {
            Some(p) if p.len() > 0 => ActionStep::Launch(k, invocation_for(k, p.as_slice(), current_dir, base_env)),
            _ => ActionStep::MissingCommand(k),
        },
        None => ActionStep::Unknown,
    }
}

} // verus!
