//! Execution strategies: running, or simulating, external command lines.
//!
//! A live run spawns processes and so happens outside this crate; what is
//! decided here is which strategy serves a request, what a dry run reports,
//! and how the outputs of a list of commands are gathered, stopping after the
//! first command that fails.

use crate::envelope::Flag;
use crate::wire::push_all;
use vstd::prelude::*;
use vstd::string::StringExecFns;

verus! {

/// Model of a command line.
pub struct ProcessCommandModel {
    pub program: Seq<char>,
    pub args: Seq<Seq<char>>,
}

/// A command line to run: a program and its arguments.
#[derive(Clone, Debug, PartialEq, Eq)]
pub struct ProcessCommand {
    pub program: String,
    pub args: Vec<String>,
}

impl DeepView for ProcessCommand {
    type V = ProcessCommandModel;

    open spec fn deep_view(&self) -> ProcessCommandModel {
        ProcessCommandModel { program: self.program@, args: self.args.deep_view() }
    }
}

impl ProcessCommand {
    /// A command line that runs `program` with no arguments.
    pub fn new(program: &str) -> (r: ProcessCommand)
        ensures
            r.deep_view() == (ProcessCommandModel { program: program@, args: seq![] }),
    {
        let r = ProcessCommand { program: String::from_str(program), args: Vec::new() };
        assert(r.args.deep_view() =~= seq![]);
        r
    }

    /// Adds `arg` after the arguments given so far.
    pub fn arg(&mut self, arg: &str)
        ensures
            final(self).deep_view() == (ProcessCommandModel {
                program: old(self).deep_view().program,
                args: old(self).deep_view().args.push(arg@),
            }),
    {
        let ghost before = self.args.deep_view();
        self.args.push(String::from_str(arg));
        assert(self.args.deep_view() =~= before.push(arg@));
    }
}

/// Model of what a command produced.
pub struct OutputModel {
    pub status: Option<i32>,
    pub stdout: Seq<u8>,
    pub stderr: Seq<u8>,
}

/// What a command produced: its exit code (none when a signal ended it),
/// and what it wrote to stdout and stderr.
#[derive(Clone, Debug, PartialEq, Eq)]
pub struct Output {
    pub status: Option<i32>,
    pub stdout: Vec<u8>,
    pub stderr: Vec<u8>,
}

impl DeepView for Output {
    type V = OutputModel;

    open spec fn deep_view(&self) -> OutputModel {
        OutputModel { status: self.status, stdout: self.stdout@, stderr: self.stderr@ }
    }
}

/// A command succeeded when it exited with code 0.
pub open spec fn succeeded(o: OutputModel) -> bool {
    o.status == Some(0i32)
}

impl Output {
    /// Whether the command exited with code 0.
    pub fn success(&self) -> (r: bool)
        ensures
            r == succeeded(self.deep_view()),
    {
        match self.status {
            Some(code) => code == 0,
            None => false,
        }
    }
}

/// The outputs of commands run one after the other, gathered: stdout and
/// stderr concatenated in order, and the status of the last command (success
/// when none ran).
pub open spec fn aggregate(outs: Seq<OutputModel>) -> OutputModel
    decreases outs.len(),
{
    if outs.len() == 0 {
        OutputModel { status: Some(0i32), stdout: seq![], stderr: seq![] }
    } else {
        let before = aggregate(outs.drop_last());
        OutputModel {
            status: outs.last().status,
            stdout: before.stdout + outs.last().stdout,
            stderr: before.stderr + outs.last().stderr,
        }
    }
}

/// Whether a batch of `n` commands that produced `outs` so far is done:
/// every command ran, or the last one that ran failed.
pub open spec fn batch_finished(n: nat, outs: Seq<OutputModel>) -> bool {
    outs.len() >= n || (outs.len() > 0 && !succeeded(outs.last()))
}

/// Why a command could not be executed.
#[derive(Clone, Copy, Debug, PartialEq, Eq, Structural)]
pub enum ExecError {
    /// A live executor was asked for a dry run.
    DryRunUnsupported,
    /// The process could not be started.
    SpawnFailed,
}

/// A list of commands run in order, stopping after the first that fails.
///
/// `next_command` names the command to run; its output is handed back with
/// `record`. The gathered output is taken with `into_output`.
pub struct Batch {
    commands: Vec<ProcessCommand>,
    progress: Progress,
}

/// How far a batch got: how many commands ran, what they gathered, and
/// (in the model) each output.
struct Progress {
    ran: usize,
    output: Output,
    outputs: Ghost<Seq<OutputModel>>,
}

impl Batch {
    /// The command lines of the batch.
    pub closed spec fn commands(&self) -> Seq<ProcessCommandModel> {
        self.commands.deep_view()
    }

    /// The outputs recorded so far, in order.
    pub closed spec fn outputs(&self) -> Seq<OutputModel> {
        self.progress.outputs@
    }

    /// Whether no further command is to run.
    pub open spec fn finished(&self) -> bool {
        batch_finished(self.commands().len(), self.outputs())
    }

    #[verifier::type_invariant]
    spec fn inv(&self) -> bool {
        &&& self.progress.ran == self.progress.outputs@.len()
        &&& self.progress.ran <= self.commands@.len()
        &&& forall|i: int| 0 <= i < self.progress.outputs@.len() - 1 ==> succeeded(#[trigger] self.progress.outputs@[i])
        &&& self.progress.output.deep_view() == aggregate(self.progress.outputs@)
    }

    /// A batch of `commands` of which none has run.
    pub fn new(commands: Vec<ProcessCommand>) -> (r: Batch)
        ensures
            r.commands() == commands.deep_view(),
            r.outputs() == Seq::<OutputModel>::empty(),
    {
        let output = Output { status: Some(0), stdout: Vec::new(), stderr: Vec::new() };
        assert(output.deep_view() == aggregate(Seq::<OutputModel>::empty()));
        Batch { commands, progress: Progress { ran: 0, output, outputs: Ghost(Seq::empty()) } }
    }

    /// The command to run next, or none when the batch is finished.
    pub fn next_command(&self) -> (r: Option<&ProcessCommand>)
        ensures
            r is None <==> self.finished(),
            r matches Some(c) ==> c.deep_view() == self.commands()[self.outputs().len() as int],
    {
        proof {
            use_type_invariant(self);
        }
        if self.progress.ran == self.commands.len() {
            None
        } else if self.progress.ran > 0 && !self.progress.output.success() {
            None
        } else {
            Some(&self.commands[self.progress.ran])
        }
    }

    /// Records the output of the command that `next_command` named.
    pub fn record(&mut self, out: Output)
        requires
            !old(self).finished(),
        ensures
            final(self).commands() == old(self).commands(),
            final(self).outputs() == old(self).outputs().push(out.deep_view()),
    {
        proof {
            use_type_invariant(&*self);
        }
        assert(self.commands.deep_view().len() == self.commands@.len());
        let n = self.commands.len();
        assert(self.progress.ran < n);
        let ghost before = self.progress.outputs@;
        let ghost now = before.push(out.deep_view());
        let mut gathered_out: Vec<u8> = Vec::new();
        push_all(&mut gathered_out, self.progress.output.stdout.as_slice());
        push_all(&mut gathered_out, out.stdout.as_slice());
        let mut gathered_err: Vec<u8> = Vec::new();
        push_all(&mut gathered_err, self.progress.output.stderr.as_slice());
        push_all(&mut gathered_err, out.stderr.as_slice());
        let output = Output { status: out.status, stdout: gathered_out, stderr: gathered_err };
        proof {
            assert(now.drop_last() =~= before);
            assert forall|i: int| 0 <= i < now.len() - 1 implies succeeded(#[trigger] now[i]) by {
                if i < before.len() - 1 {
                    assert(now[i] == before[i]);
                } else {
                    assert(now[i] == before.last());
                }
            }
            assert(output.deep_view() == aggregate(now));
        }
        self.progress = Progress { ran: self.progress.ran + 1, output, outputs: Ghost(now) };
    }

    /// The gathered output of the commands that ran.
    pub fn into_output(self) -> (r: Output)
        ensures
            r.deep_view() == aggregate(self.outputs()),
    {
        proof {
            use_type_invariant(&self);
        }
        self.progress.output
    }
}

/// Names what `Debug` prints for a string.
pub uninterp spec fn debug_quoted(s: Seq<char>) -> Seq<char>;

/// Relies on the `Debug` impl of `str`: the text between double quotes, with
/// quotes, backslashes and unprintable characters escaped. What it prints
/// depends on the text alone.
#[verifier::external_body]
fn quoted(s: &str) -> (r: String)
    ensures
        r@ == debug_quoted(s@),
{
    format!("{:?}", s)
}

/// Words each after a space.
pub open spec fn spaced(words: Seq<Seq<char>>) -> Seq<char>
    decreases words.len(),
{
    if words.len() == 0 {
        seq![]
    } else {
        spaced(words.drop_last()) + seq![' '] + words.last()
    }
}

/// A command line as a line of text: the program, then each argument after
/// a space, then a newline.
pub open spec fn line_of(program: Seq<char>, args: Seq<Seq<char>>) -> Seq<char> {
    program + spaced(args) + seq!['\n']
}

/// The line a dry run reports for a command: program and arguments each
/// quoted, separated by spaces, ending in a newline.
pub open spec fn dry_run_line(cmd: ProcessCommandModel) -> Seq<char> {
    line_of(debug_quoted(cmd.program), cmd.args.map_values(|a: Seq<char>| debug_quoted(a)))
}

/// Lays out a command line whose parts are already quoted: the program,
/// each argument after a space, and a final newline.
pub fn command_line(program: &str, args: &Vec<String>) -> (r: String)
    ensures
        r@ == line_of(program@, args.deep_view()),
{
    let mut line = String::from_str(program);
    let mut i: usize = 0;
    proof {
        reveal_strlit(" ");
        reveal_strlit("\n");
    }
    while i < args.len()
        invariant
            i <= args@.len(),
            line@ == program@ + spaced(args.deep_view().take(i as int)),
        decreases args@.len() - i,
    {
        line.append(" ");
        line.append(args[i].as_str());
        proof {
            reveal_strlit(" ");
            let words = args.deep_view();
            assert(words.take(i + 1).drop_last() =~= words.take(i as int));
            assert(words[i as int] == args@[i as int]@);
            assert(line@ =~= program@ + spaced(words.take(i + 1)));
        }
        i = i + 1;
    }
    line.append("\n");
    assert(args.deep_view().take(i as int) =~= args.deep_view());
    assert(line@ =~= line_of(program@, args.deep_view()));
    line
}

/// What a dry run of `cmd` produces: success, the line on stdout, nothing on stderr.
pub open spec fn dry_run_output(cmd: ProcessCommandModel) -> OutputModel {
    OutputModel {
        status: Some(0i32),
        stdout: vstd::utf8::encode_utf8(dry_run_line(cmd)),
        stderr: seq![],
    }
}

/// The strategy that never runs anything and reports the command lines it
/// would have run.
pub struct DryRun;

impl DryRun {
    /// Reports the command line of `cmd` instead of running it.
    pub fn execute(&self, cmd: &ProcessCommand, _flag: Flag) -> (r: Result<Output, ExecError>)
        ensures
            r matches Ok(o) && o.deep_view() == dry_run_output(cmd.deep_view()),
    {
        let program = quoted(cmd.program.as_str());
        let ghost words = cmd.args.deep_view();
        let mut args: Vec<String> = Vec::new();
        let mut i: usize = 0;
        while i < cmd.args.len()
            invariant
                i <= cmd.args@.len(),
                words == cmd.args.deep_view(),
                args.deep_view() == words.take(i as int).map_values(
                    |a: Seq<char>| debug_quoted(a),
                ),
            decreases cmd.args@.len() - i,
        {
            let ghost before = args.deep_view();
            args.push(quoted(cmd.args[i].as_str()));
            proof {
                assert(words[i as int] == cmd.args@[i as int]@);
                assert(args.deep_view() =~= before.push(debug_quoted(words[i as int])));
                assert(args.deep_view() =~= words.take(i + 1).map_values(
                    |a: Seq<char>| debug_quoted(a),
                ));
            }
            i = i + 1;
        }
        assert(words.take(i as int) =~= words);
        let line = command_line(program.as_str(), &args);
        assert(line@ == dry_run_line(cmd.deep_view()));
        let mut stdout: Vec<u8> = Vec::new();
        push_all(&mut stdout, line.as_str().as_bytes());
        Ok(Output { status: Some(0), stdout, stderr: Vec::new() })
    }

    /// Dry-runs `cmds` in order and gathers what they report.
    pub fn execute_all(&self, cmds: Vec<ProcessCommand>, flag: Flag) -> (r: Result<
        Output,
        ExecError,
    >)
        ensures
            r matches Ok(o) && o.deep_view() == aggregate(
                cmds.deep_view().map_values(|c: ProcessCommandModel| dry_run_output(c)),
            ),
    {
        let ghost all = cmds.deep_view();
        let ghost expected = all.map_values(|c: ProcessCommandModel| dry_run_output(c));
        let mut batch = Batch::new(cmds);
        loop
            invariant
                batch.commands() == all,
                expected.len() == all.len(),
                forall|i: int| 0 <= i < all.len() ==> #[trigger] expected[i] == dry_run_output(all[i]),
                batch.outputs() == expected.take(batch.outputs().len() as int),
                batch.outputs().len() <= all.len(),
            ensures
                batch.finished(),
                batch.commands() == all,
                batch.outputs() == expected.take(batch.outputs().len() as int),
            decreases all.len() - batch.outputs().len(),
        {
            let ghost k = batch.outputs().len() as int;
            let out = match batch.next_command() {
                None => break,
                Some(cmd) => match self.execute(cmd, flag) {
                    Ok(o) => o,
                    Err(e) => return Err(e),
                },
            };
            assert(out.deep_view() == expected[k]);
            batch.record(out);
            assert(batch.outputs() =~= expected.take(k + 1));
        }
        proof {
            let k = batch.outputs().len() as int;
            if 0 < k < all.len() {
                assert(batch.outputs().last() == expected[k - 1]);
            }
            assert(batch.outputs() =~= expected);
        }
        Ok(batch.into_output())
    }
}

/// The strategy that spawns processes for real.
pub struct TokioRuntime;

impl TokioRuntime {
    /// Checks the flag of a request before a live run: a live executor cannot
    /// honour a dry run, and says so rather than running anything.
    pub fn check_flag(&self, flag: Flag) -> (r: Result<(), ExecError>)
        ensures
            r is Err <==> flag == Flag::DryRun,
            r matches Err(e) ==> e == ExecError::DryRunUnsupported,
    {
        match flag {
            Flag::DryRun => Err(ExecError::DryRunUnsupported),
            Flag::NoOp => Ok(()),
        }
    }
}

/// Which strategy serves a request.
#[derive(Clone, Copy, Debug, PartialEq, Eq, Structural)]
pub enum Strategy {
    Live,
    Simulated,
}

/// The strategy that follows the flag of each request.
pub struct Configurable;

impl Configurable {
    /// Dry runs for the `DryRun` flag, live runs otherwise.
    pub fn select(&self, flag: Flag) -> (r: Strategy)
        ensures
            r == (if flag == Flag::DryRun {
                Strategy::Simulated
            } else {
                Strategy::Live
            }),
    {
        match flag {
            Flag::DryRun => Strategy::Simulated,
            Flag::NoOp => Strategy::Live,
        }
    }
}

/// Once a command of a batch fails, no further command runs: the batch is
/// finished exactly when the failing command has run, and what it gathered is
/// what the commands that ran wrote, ending with the failed command's output
/// and carrying its status.
pub proof fn lemma_short_circuit(n: nat, outs: Seq<OutputModel>)
    requires
        0 < outs.len() <= n,
        forall|i: int| 0 <= i < outs.len() - 1 ==> succeeded(#[trigger] outs[i]),
        !succeeded(outs.last()),
    ensures
        batch_finished(n, outs),
        forall|k: int| 0 <= k < outs.len() ==> !batch_finished(n, #[trigger] outs.take(k)),
        aggregate(outs).status == outs.last().status,
        aggregate(outs).stdout == aggregate(outs.drop_last()).stdout + outs.last().stdout,
        aggregate(outs).stderr == aggregate(outs.drop_last()).stderr + outs.last().stderr,
{
    assert forall|k: int| 0 <= k < outs.len() implies !batch_finished(n, #[trigger] outs.take(k)) by {
        if k > 0 {
            assert(outs.take(k).last() == outs[k - 1]);
        }
    }
}

} // verus!
