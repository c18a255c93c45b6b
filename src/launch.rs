//! Launching a child process under a copy of the held credential, as a state
//! machine, and the command line and environment block handed to the system.
use vstd::prelude::*;
use crate::args::strings_view;
use crate::text::find_char;
use vstd::string::*;

verus! {

/// Why a launch failed.
#[derive(PartialEq, Eq, Structural, Clone, Copy, Debug)]
pub enum LaunchError {
    /// No credential was held and none could be acquired.
    NoCredential,
    /// The credential could not be duplicated for process creation.
    TokenDuplicationFailed,
    /// The system refused to create the child; the system's error code.
    ProcessCreationFailed(u32),
    /// Waiting for the child to finish did not end normally.
    WaitFailed,
}

/// The result of one launch: whether it succeeded, the child's exit code where
/// it could be read, and the stage that failed otherwise.
#[derive(PartialEq, Eq, Structural, Clone, Copy, Debug)]
pub struct LaunchResult {
    pub succeeded: bool,
    pub exit_code: Option<u32>,
    pub error: Option<LaunchError>,
}

/// The result of a launch that failed so.
pub open spec fn failed_with(e: LaunchError) -> LaunchResult {
    LaunchResult { succeeded: false, exit_code: None, error: Some(e) }
}

/// Where a launch stands.
#[derive(PartialEq, Eq, Structural, Clone, Copy, Debug)]
pub enum LaunchStage {
    /// Waiting for the held credential.
    Credential,
    /// Waiting for the credential to be duplicated.
    Duplicating,
    /// Waiting for the child to be created.
    Creating,
    /// Waiting for the child to finish.
    Waiting,
    /// Waiting for the child's exit code.
    Reading,
    Finished,
}

/// The result of performing an action, handed back to the machine.
#[derive(PartialEq, Eq, Structural, Clone, Copy, Debug)]
pub enum LaunchEvent {
    /// Whether a credential is held (acquiring one where none was).
    Credential(bool),
    /// Whether the credential was duplicated.
    Duplicated(bool),
    /// The child was created; or the system's error code.
    Created(Option<u32>),
    /// Whether the wait ended with the child finished.
    Waited(bool),
    /// The child's exit code, where it could be read.
    ExitCode(Option<u32>),
}

/// What the caller is to do next.
#[derive(PartialEq, Eq, Structural, Clone, Copy, Debug)]
pub enum LaunchAction {
    /// Get the held credential, acquiring it where none is held.
    GetCredential,
    /// Duplicate the credential into a fresh handle for process creation.
    Duplicate,
    /// Create the child under the duplicate, then release the duplicate.
    CreateProcess,
    /// Wait for the child to finish, at most this many milliseconds where a
    /// bound is given.
    Wait { timeout_ms: Option<u32> },
    /// Read the child's exit code, then release its handles.
    ReadExitCode,
    /// Stop, with this result; release the child's handles if any are open.
    Done(LaunchResult),
}

/// One launch.
pub struct Launch {
    pub stage: LaunchStage,
    pub result: LaunchResult,
    /// The longest wait for the child, in milliseconds; none waits for as long
    /// as the child runs.
    pub wait_timeout_ms: Option<u32>,
}

/// The stage and action after `e` at stage `s`, and the result once finished.
/// An event that the stage does not wait on changes nothing.
pub open spec fn launch_step(s: LaunchStage, res: LaunchResult, timeout: Option<u32>, e: LaunchEvent) -> (LaunchStage, LaunchResult, LaunchAction) {
    match (s, e) {
        (LaunchStage::Credential, LaunchEvent::Credential(ok)) => if ok {
            (LaunchStage::Duplicating, res, LaunchAction::Duplicate)
        } else {
            (LaunchStage::Finished, failed_with(LaunchError::NoCredential), LaunchAction::Done(failed_with(LaunchError::NoCredential)))
        },
        (LaunchStage::Duplicating, LaunchEvent::Duplicated(ok)) => if ok {
            (LaunchStage::Creating, res, LaunchAction::CreateProcess)
        } else {
            (LaunchStage::Finished, failed_with(LaunchError::TokenDuplicationFailed), LaunchAction::Done(failed_with(LaunchError::TokenDuplicationFailed)))
        },
        (LaunchStage::Creating, LaunchEvent::Created(err)) => match err {
            None => (LaunchStage::Waiting, res, LaunchAction::Wait { timeout_ms: timeout }),
            Some(code) => (
                LaunchStage::Finished,
                failed_with(LaunchError::ProcessCreationFailed(code)),
                LaunchAction::Done(failed_with(LaunchError::ProcessCreationFailed(code))),
            ),
        },
        (LaunchStage::Waiting, LaunchEvent::Waited(ok)) => if ok {
            (LaunchStage::Reading, res, LaunchAction::ReadExitCode)
        } else {
            (LaunchStage::Finished, failed_with(LaunchError::WaitFailed), LaunchAction::Done(failed_with(LaunchError::WaitFailed)))
        },
        (LaunchStage::Reading, LaunchEvent::ExitCode(code)) => {
            let done = LaunchResult { succeeded: true, exit_code: code, error: None };
            (LaunchStage::Finished, done, LaunchAction::Done(done))
        },
        _ => (s, res, launch_awaited(s, res, timeout)),
    }
}

/// The action that stage `s` waits on.
pub open spec fn launch_awaited(s: LaunchStage, res: LaunchResult, timeout: Option<u32>) -> LaunchAction {
    match s {
        LaunchStage::Credential => LaunchAction::GetCredential,
        LaunchStage::Duplicating => LaunchAction::Duplicate,
        LaunchStage::Creating => LaunchAction::CreateProcess,
        LaunchStage::Waiting => LaunchAction::Wait { timeout_ms: timeout },
        LaunchStage::Reading => LaunchAction::ReadExitCode,
        LaunchStage::Finished => LaunchAction::Done(res),
    }
}

impl Launch {
    /// A launch that starts by asking for the held credential, and waits for
    /// the child at most `wait_timeout_ms` where that is given.
    pub fn new(wait_timeout_ms: Option<u32>) -> (r: Launch)
        ensures
            r.stage == LaunchStage::Credential,
            r.wait_timeout_ms == wait_timeout_ms,
    {
        Launch {
            stage: LaunchStage::Credential,
            result: LaunchResult { succeeded: false, exit_code: None, error: None },
            wait_timeout_ms,
        }
    }

    /// The action that the current stage waits on.
    pub fn pending(&self) -> (r: LaunchAction)
        ensures
            r == launch_awaited(self.stage, self.result, self.wait_timeout_ms),
    {
        match self.stage {
            LaunchStage::Credential => LaunchAction::GetCredential,
            LaunchStage::Duplicating => LaunchAction::Duplicate,
            LaunchStage::Creating => LaunchAction::CreateProcess,
            LaunchStage::Waiting => LaunchAction::Wait { timeout_ms: self.wait_timeout_ms },
            LaunchStage::Reading => LaunchAction::ReadExitCode,
            LaunchStage::Finished => LaunchAction::Done(self.result),
        }
    }

    fn fail(&mut self, e: LaunchError) -> (r: LaunchAction)
        ensures
            final(self).stage == LaunchStage::Finished,
            final(self).result == failed_with(e),
            final(self).wait_timeout_ms == old(self).wait_timeout_ms,
            r == LaunchAction::Done(failed_with(e)),
    {
        self.stage = LaunchStage::Finished;
        self.result = LaunchResult { succeeded: false, exit_code: None, error: Some(e) };
        LaunchAction::Done(self.result)
    }

    /// Takes the result of the last action and decides the next one.
    pub fn step(&mut self, event: LaunchEvent) -> (r: LaunchAction)
        ensures
            final(self).wait_timeout_ms == old(self).wait_timeout_ms,
            (final(self).stage, final(self).result, r)
                == launch_step(old(self).stage, old(self).result, old(self).wait_timeout_ms, event),
    {
        match (self.stage, event) {
            (LaunchStage::Credential, LaunchEvent::Credential(ok)) => if ok {
                self.stage = LaunchStage::Duplicating;
                LaunchAction::Duplicate
            } else {
                self.fail(LaunchError::NoCredential)
            },
            (LaunchStage::Duplicating, LaunchEvent::Duplicated(ok)) => if ok {
                self.stage = LaunchStage::Creating;
                LaunchAction::CreateProcess
            } else {
                self.fail(LaunchError::TokenDuplicationFailed)
            },
            (LaunchStage::Creating, LaunchEvent::Created(err)) => match err {
                None => {
                    self.stage = LaunchStage::Waiting;
                    LaunchAction::Wait { timeout_ms: self.wait_timeout_ms }
                },
                Some(code) => self.fail(LaunchError::ProcessCreationFailed(code)),
            },
            (LaunchStage::Waiting, LaunchEvent::Waited(ok)) => if ok {
                self.stage = LaunchStage::Reading;
                LaunchAction::ReadExitCode
            } else {
                self.fail(LaunchError::WaitFailed)
            },
            (LaunchStage::Reading, LaunchEvent::ExitCode(code)) => {
                self.stage = LaunchStage::Finished;
                self.result = LaunchResult { succeeded: true, exit_code: code, error: None };
                LaunchAction::Done(self.result)
            },
            _ => self.pending(),
        }
    }
}

/// A launch whose credential cannot be duplicated ends with that failure, and
/// no process is created: the action after it is no creation, and every later
/// event leaves the failure as it is.
pub proof fn lemma_bad_token_stops_at_duplication(res: LaunchResult, timeout: Option<u32>, later: LaunchEvent)
    ensures
        ({
            let (s1, r1, a1) = launch_step(LaunchStage::Duplicating, res, timeout, LaunchEvent::Duplicated(false));
            let (s2, r2, a2) = launch_step(s1, r1, timeout, later);
            &&& s1 == LaunchStage::Finished
            &&& r1 == failed_with(LaunchError::TokenDuplicationFailed)
            &&& a1 == LaunchAction::Done(failed_with(LaunchError::TokenDuplicationFailed))
            &&& s2 == LaunchStage::Finished
            &&& r2 == r1
            &&& a2 == a1
        }),
{
}

/// The text of one environment entry, `key=value`.
pub open spec fn entry_text(k: Seq<char>, v: Seq<char>) -> Seq<char> {
    k + seq!['='] + v
}

/// The entries of an environment block, one `key=value` text per variable, in order.
pub fn environment_entries(env: &Vec<(String, String)>) -> (r: Vec<String>)
    ensures
        r@.len() == env@.len(),
        forall|i: int| 0 <= i < r@.len() ==> #[trigger] r@[i]@ == entry_text(env@[i].0@, env@[i].1@),
{
    let mut r: Vec<String> = Vec::new();
    let mut i: usize = 0;
    while i < env.len()
        invariant
            i <= env.len(),
            r@.len() == i,
            forall|j: int| 0 <= j < i ==> #[trigger] r@[j]@ == entry_text(env@[j].0@, env@[j].1@),
        decreases env.len() - i,
    {
        let mut t = env[i].0.clone();
        t.append("=");
        t.append(env[i].1.as_str());
        proof {
            reveal_strlit("=");
            assert(t@ =~= entry_text(env@[i as int].0@, env@[i as int].1@));
        }
        r.push(t);
        i = i + 1;
    }
    r
}

/// An argument that must be quoted to reach the child as one argument.
pub open spec fn needs_quotes(a: Seq<char>) -> bool {
    a.len() == 0 || a.contains(' ') || a.contains('\t') || a.contains('"')
}

/// `n` backslashes.
pub open spec fn backslashes(n: nat) -> Seq<char> {
    Seq::new(n, |i: int| '\\')
}

/// The number of backslashes at the end of `s`.
pub open spec fn trailing_backslashes(s: Seq<char>) -> nat
    decreases s.len(),
{
    if s.len() == 0 {
        0
    } else if s.last() == '\\' {
        trailing_backslashes(s.drop_last()) + 1
    } else {
        0
    }
}

/// The inside of a quoted argument: each double quote escaped by a backslash,
/// and the backslashes just before it doubled.
pub open spec fn escaped(a: Seq<char>) -> Seq<char>
    decreases a.len(),
{
    if a.len() == 0 {
        a
    } else {
        let p = a.drop_last();
        if a.last() == '"' {
            escaped(p) + backslashes(trailing_backslashes(p) + 1) + seq!['"']
        } else {
            escaped(p).push(a.last())
        }
    }
}

/// An argument as it stands in a command line, so that the child's usual
/// parsing gives it back unchanged: where it is empty or holds a space, a tab
/// or a double quote, it is escaped, the backslashes at its end are doubled,
/// and it is put in double quotes; else it stands as it is.
pub open spec fn quoted(a: Seq<char>) -> Seq<char> {
    if needs_quotes(a) {
        seq!['"'] + escaped(a) + backslashes(trailing_backslashes(a)) + seq!['"']
    } else {
        a
    }
}

/// The command line for `program` with `args`: each quoted, separated by a space.
pub open spec fn command_line_spec(program: Seq<char>, args: Seq<Seq<char>>) -> Seq<char>
    decreases args.len(),
{
    if args.len() == 0 {
        quoted(program)
    } else {
        command_line_spec(program, args.drop_last()) + seq![' '] + quoted(args.last())
    }
}

/// Appends `n` backslashes to `r`.
fn append_backslashes(r: &mut String, n: usize)
    ensures
        final(r)@ == old(r)@ + backslashes(n as nat),
{
    let mut k: usize = 0;
    while k < n
        invariant
            k <= n,
            r@ == old(r)@ + backslashes(k as nat),
        decreases n - k,
    {
        r.append("\\");
        proof {
            reveal_strlit("\\");
            assert(r@ =~= old(r)@ + backslashes((k + 1) as nat));
        }
        k = k + 1;
    }
}

/// One argument as it stands in a command line.
pub fn quote_arg(a: &str) -> (r: String)
    ensures
        r@ == quoted(a@),
{
    let n = a.unicode_len();
    proof {
        crate::text::lemma_first_index_of(a@, ' ');
        crate::text::lemma_first_index_of(a@, '\t');
        crate::text::lemma_first_index_of(a@, '"');
    }
    let space = find_char(a, ' ');
    let tab = find_char(a, '\t');
    let quote = find_char(a, '"');
    if !(n == 0 || space.is_some() || tab.is_some() || quote.is_some()) {
        return a.to_owned();
    }
    let mut r = String::from_str("\"");
    proof {
        reveal_strlit("\"");
        assert(a@.subrange(0, 0) =~= Seq::<char>::empty());
        assert(r@ =~= seq!['"'] + escaped(a@.subrange(0, 0)));
    }
    let mut run: usize = 0;
    let mut i: usize = 0;
    while i < n
        invariant
            n == a@.len(),
            i <= n,
            run <= i,
            r@ == seq!['"'] + escaped(a@.subrange(0, i as int)),
            run == trailing_backslashes(a@.subrange(0, i as int)),
        decreases n - i,
    {
        let c = a.get_char(i);
        let ghost p = a@.subrange(0, i + 1);
        let ghost before = r@;
        assert(p.drop_last() =~= a@.subrange(0, i as int));
        assert(p.last() == c);
        if c == '"' {
            append_backslashes(&mut r, run + 1);
            r.append("\"");
            proof {
                reveal_strlit("\"");
                assert(r@ =~= seq!['"'] + escaped(p));
            }
            run = 0;
        } else {
            let one = a.substring_char(i, i + 1);
            r.append(one);
            proof {
                assert(one@ =~= seq![c]);
                assert(r@ =~= seq!['"'] + escaped(p));
            }
            if c == '\\' {
                run = run + 1;
            } else {
                run = 0;
            }
        }
        i = i + 1;
    }
    assert(a@.subrange(0, n as int) =~= a@);
    append_backslashes(&mut r, run);
    r.append("\"");
    proof {
        reveal_strlit("\"");
        assert(r@ =~= quoted(a@));
    }
    r
}

/// The command line that starts `program` with `args`.
pub fn command_line(program: &String, args: &Vec<String>) -> (r: String)
    ensures
        r@ == command_line_spec(program@, strings_view(args@)),
{
    let mut r = quote_arg(program.as_str());
    let mut i: usize = 0;
    while i < args.len()
        invariant
            i <= args.len(),
            r@ == command_line_spec(program@, strings_view(args@).subrange(0, i as int)),
        decreases args.len() - i,
    {
        r.append(" ");
        let q = quote_arg(args[i].as_str());
        r.append(q.as_str());
        proof {
            reveal_strlit(" ");
            let sv = strings_view(args@);
            assert(sv.subrange(0, i + 1).drop_last() =~= sv.subrange(0, i as int));
            assert(sv.subrange(0, i + 1).last() == args@[i as int]@);
            assert(r@ =~= command_line_spec(program@, sv.subrange(0, i + 1)));
        }
        i = i + 1;
    }
    assert(strings_view(args@).subrange(0, args.len() as int) =~= strings_view(args@));
    r
}

} // verus!
