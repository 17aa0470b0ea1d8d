//! The dispatch state machine of the server.
//!
//! The server accepts one connection at a time, decodes one request from it,
//! handles it and writes back one response, until a `Shutdown` request has
//! been answered. The loop that performs the I/O lives outside this crate:
//! it performs each `Action` the server asks for and reports the outcome by
//! calling the matching method, which returns the next action.

use crate::envelope::{Command, CommandModel, Flag, OpenInHelix, OpenInHelixModel, Response,
    ResponseModel};
use crate::executor::{
    aggregate, batch_finished, succeeded, Batch, ExecError, Output, OutputModel, ProcessCommand,
    ProcessCommandModel,
};
use crate::paths::{absolute, is_absolute, relative_resolved, resolve_relative_path, strip_prefix,
    stripped};
use crate::terminal::{cwd_of, find_window_by_id, find_workspace, focused_active_window,
    focused_window, window_by_id, window_cwd, workspace_window, OsWindow, OsWindowModel, Window,
    WindowModel};
use crate::wire::{utf8_string, WireRead, WireReadError, WireWrite};
use vstd::prelude::*;
use vstd::string::StringExecFns;
use vstd::utf8::{decode_utf8, encode_utf8_decode_utf8, valid_utf8};

verus! {

/// The character of a decimal digit.
pub open spec fn digit_char(d: nat) -> char {
    if d == 0 {
        '0'
    } else if d == 1 {
        '1'
    } else if d == 2 {
        '2'
    } else if d == 3 {
        '3'
    } else if d == 4 {
        '4'
    } else if d == 5 {
        '5'
    } else if d == 6 {
        '6'
    } else if d == 7 {
        '7'
    } else if d == 8 {
        '8'
    } else {
        '9'
    }
}

/// `n` written in decimal, without leading zeros.
pub open spec fn decimal(n: nat) -> Seq<char>
    decreases n,
{
    if n < 10 {
        seq![digit_char(n)]
    } else {
        decimal(n / 10).push(digit_char(n % 10))
    }
}

fn digit_str(d: u32) -> (r: &'static str)
    requires
        d < 10,
    ensures
        r@ == seq![digit_char(d as nat)],
{
    proof {
        reveal_strlit("0");
        reveal_strlit("1");
        reveal_strlit("2");
        reveal_strlit("3");
        reveal_strlit("4");
        reveal_strlit("5");
        reveal_strlit("6");
        reveal_strlit("7");
        reveal_strlit("8");
        reveal_strlit("9");
    }
    let r = if d == 0 {
        "0"
    } else if d == 1 {
        "1"
    } else if d == 2 {
        "2"
    } else if d == 3 {
        "3"
    } else if d == 4 {
        "4"
    } else if d == 5 {
        "5"
    } else if d == 6 {
        "6"
    } else if d == 7 {
        "7"
    } else if d == 8 {
        "8"
    } else {
        "9"
    };
    assert(r@ =~= seq![digit_char(d as nat)]);
    r
}

/// Appends `n` in decimal to `s`.
fn push_decimal(s: &mut String, n: u32)
    ensures
        final(s)@ == old(s)@ + decimal(n as nat),
    decreases n,
{
    if n >= 10 {
        push_decimal(s, n / 10);
    }
    s.append(digit_str(n % 10));
    assert(final(s)@ =~= old(s)@ + decimal(n as nat));
}

/// The command line that types `text` into terminal window `window`.
pub open spec fn send_text_command(window: u32, text: Seq<char>) -> ProcessCommandModel {
    ProcessCommandModel {
        program: "kitty"@,
        args: seq!["@"@, "send-text"@, "--match"@, "id:"@ + decimal(window as nat), text],
    }
}

/// The command line that focuses terminal window `window`.
pub open spec fn focus_command(window: u32) -> ProcessCommandModel {
    ProcessCommandModel {
        program: "kitty"@,
        args: seq!["@"@, "focus-window"@, "--match"@, "id:"@ + decimal(window as nat)],
    }
}

/// The command lines that make the editor in `window` open `path`: focus
/// the window, leave insert mode, then type the open command and return.
pub open spec fn open_commands(window: u32, path: Seq<char>) -> Seq<ProcessCommandModel> {
    seq![
        focus_command(window),
        send_text_command(window, "\\E"@),
        send_text_command(window, ":open "@ + path + "\\r"@),
    ]
}

fn match_window(window: u32) -> (r: String)
    ensures
        r@ == "id:"@ + decimal(window as nat),
{
    let mut target = String::from_str("id:");
    push_decimal(&mut target, window);
    target
}

/// Builds the command line that focuses terminal window `window`.
pub fn kitty_focus_window_cmd(window: u32) -> (r: ProcessCommand)
    ensures
        r.deep_view() == focus_command(window),
{
    let target = match_window(window);
    let mut cmd = ProcessCommand::new("kitty");
    cmd.arg("@");
    cmd.arg("focus-window");
    cmd.arg("--match");
    cmd.arg(target.as_str());
    assert(cmd.deep_view().args =~= focus_command(window).args);
    cmd
}

/// Builds the command line that types `text` into terminal window `window`.
pub fn kitty_send_text_cmd(window: u32, text: &str) -> (r: ProcessCommand)
    ensures
        r.deep_view() == send_text_command(window, text@),
{
    let target = match_window(window);
    let mut cmd = ProcessCommand::new("kitty");
    cmd.arg("@");
    cmd.arg("send-text");
    cmd.arg("--match");
    cmd.arg(target.as_str());
    cmd.arg(text);
    assert(cmd.deep_view().args =~= send_text_command(window, text@).args);
    cmd
}

fn open_in_helix_commands(window: u32, path: &str) -> (r: Vec<ProcessCommand>)
    ensures
        r.deep_view() == open_commands(window, path@),
{
    let mut open = String::from_str(":open ");
    open.append(path);
    open.append("\\r");
    let mut r: Vec<ProcessCommand> = Vec::new();
    r.push(kitty_focus_window_cmd(window));
    r.push(kitty_send_text_cmd(window, "\\E"));
    r.push(kitty_send_text_cmd(window, open.as_str()));
    assert(r.deep_view() =~= open_commands(window, path@));
    r
}

/// Why a connection ended without a response.
#[derive(Clone, Copy, Debug, PartialEq, Eq, Structural)]
pub enum Failure {
    /// The request could not be decoded.
    Malformed(WireReadError),
    /// No window answers the request: none is active and focused, or none
    /// has the requested id.
    WindowNotFound,
    /// No window runs the editor in a directory holding the file.
    WorkspaceNotFound,
    /// The windows could not be listed.
    WindowsUnavailable,
    /// The editor's window has no known working directory to make an
    /// absolute path relative to.
    UnknownWorkingDirectory,
    /// The file lies outside the working directory of the editor's window.
    OutsideWorkingDirectory,
    /// A command could not be executed.
    Execution(ExecError),
    /// A command exited with this status rather than success.
    CommandFailed(Option<i32>),
    /// The commands' output is not valid UTF-8.
    InvalidOutput,
}

/// Model of an action.
pub enum ActionModel {
    Accept,
    ReadRequest,
    ListWindows,
    Run(ProcessCommandModel, Flag),
    Respond(Seq<u8>),
    Close(Failure),
    Stop,
}

/// What the server asks its surroundings to do next.
#[derive(Debug, PartialEq, Eq)]
pub enum Action {
    /// Wait for the next connection, then call `accepted` (or `accept_failed`).
    Accept,
    /// Read the request from the connection and pass it to `request_read`.
    ReadRequest,
    /// List the terminal's windows and pass them to `windows_listed`
    /// (or call `windows_unavailable`).
    ListWindows,
    /// Execute this command line with the strategy the flag selects and pass
    /// its output to `command_ran` (or call `run_failed`).
    Run(ProcessCommand, Flag),
    /// Write these bytes to the connection, close it, then call `connection_done`.
    Respond(Vec<u8>),
    /// Close the connection without a response, then call `connection_done`.
    Close(Failure),
    /// Stop serving.
    Stop,
}

impl DeepView for Action {
    type V = ActionModel;

    open spec fn deep_view(&self) -> ActionModel {
        match self {
            Action::Accept => ActionModel::Accept,
            Action::ReadRequest => ActionModel::ReadRequest,
            Action::ListWindows => ActionModel::ListWindows,
            Action::Run(c, f) => ActionModel::Run(c.deep_view(), *f),
            Action::Respond(b) => ActionModel::Respond(b@),
            Action::Close(f) => ActionModel::Close(*f),
            Action::Stop => ActionModel::Stop,
        }
    }
}

/// Model of a request that waits for the window list.
pub enum PendingModel {
    FocusedWindow,
    Open(OpenInHelixModel),
}

/// Model of the server's state.
pub enum PhaseModel {
    AwaitingConnection,
    DecodingCommand,
    ListingWindows(PendingModel),
    Executing { commands: Seq<ProcessCommandModel>, outputs: Seq<OutputModel>, flag: Flag },
    WritingResponse { last: bool },
    Stopped,
}

/// The flag a request runs under: dry runs only when asked for.
pub open spec fn flag_of(f: Option<Flag>) -> Flag {
    match f {
        Some(f) => f,
        None => Flag::NoOp,
    }
}

/// The encoding of a response.
pub open spec fn reply(r: ResponseModel) -> Seq<u8> {
    <Response as WireWrite>::wire(r)
}

/// Where a connection ends when the gathered output of its commands, run
/// under `flag`, is `o`: a live run is acknowledged, a dry run answers with
/// the command lines it would have run.
pub open spec fn finish(o: OutputModel, flag: Flag) -> (PhaseModel, ActionModel) {
    if !succeeded(o) {
        (PhaseModel::AwaitingConnection, ActionModel::Close(Failure::CommandFailed(o.status)))
    } else if flag == Flag::NoOp {
        (PhaseModel::WritingResponse { last: false }, ActionModel::Respond(reply(ResponseModel::Ack)))
    } else if valid_utf8(o.stdout) {
        (
            PhaseModel::WritingResponse { last: false },
            ActionModel::Respond(reply(ResponseModel::Message(decode_utf8(o.stdout)))),
        )
    } else {
        (PhaseModel::AwaitingConnection, ActionModel::Close(Failure::InvalidOutput))
    }
}

/// The step after `outs` were gathered from running `cmds` under `flag`.
pub open spec fn next_step(
    cmds: Seq<ProcessCommandModel>,
    outs: Seq<OutputModel>,
    flag: Flag,
) -> (PhaseModel, ActionModel) {
    if batch_finished(cmds.len(), outs) {
        finish(aggregate(outs), flag)
    } else {
        (
            PhaseModel::Executing { commands: cmds, outputs: outs, flag },
            ActionModel::Run(cmds[outs.len() as int], flag),
        )
    }
}

/// Opening `path` in the editor of window `window`.
pub open spec fn start_open(window: u32, path: Seq<char>, flag: Flag) -> (PhaseModel, ActionModel) {
    next_step(open_commands(window, path), seq![], flag)
}

/// The window whose editor is to open the file: the one with the requested
/// id, or else the first whose editor works in a directory holding the file
/// (a relative path taken from the focused window's directory).
pub open spec fn target_window(o: OpenInHelixModel, windows: Seq<OsWindowModel>) -> Result<
    WindowModel,
    Failure,
> {
    match o.kitty_tab_id {
        Some(id) => match window_by_id(windows, id) {
            Some(w) => Ok(w),
            None => Err(Failure::WindowNotFound),
        },
        None => match workspace_window(windows, relative_resolved(windows, o.path)) {
            Some(w) => Ok(w),
            None => Err(Failure::WorkspaceNotFound),
        },
    }
}

/// The path to type into the editor of `w`: an absolute path is made
/// relative to the window's working directory; a relative one is kept.
pub open spec fn editor_path(w: WindowModel, path: Seq<char>) -> Result<Seq<char>, Failure> {
    if absolute(path) {
        match cwd_of(w) {
            None => Err(Failure::UnknownWorkingDirectory),
            Some(cwd) => match stripped(path, cwd) {
                Some(rel) => Ok(rel),
                None => Err(Failure::OutsideWorkingDirectory),
            },
        }
    } else {
        Ok(path)
    }
}

/// What the server does with a decoded request.
pub open spec fn on_command(c: CommandModel) -> (PhaseModel, ActionModel) {
    match c {
        CommandModel::Shutdown => (
            PhaseModel::WritingResponse { last: true },
            ActionModel::Respond(reply(ResponseModel::Ack)),
        ),
        CommandModel::Echo(m) => (
            PhaseModel::WritingResponse { last: false },
            ActionModel::Respond(reply(ResponseModel::Message(m))),
        ),
        CommandModel::GetActiveFocusedWindow => (
            PhaseModel::ListingWindows(PendingModel::FocusedWindow),
            ActionModel::ListWindows,
        ),
        CommandModel::OpenInHelix(o) => (
            PhaseModel::ListingWindows(PendingModel::Open(o)),
            ActionModel::ListWindows,
        ),
    }
}

/// What the server does with the bytes of a request.
pub open spec fn after_request(request: Seq<u8>) -> (PhaseModel, ActionModel) {
    match <Command as WireRead>::parse(request) {
        Err(e) => (PhaseModel::AwaitingConnection, ActionModel::Close(Failure::Malformed(e))),
        Ok((c, _)) => on_command(c),
    }
}

/// What the server does once the windows are listed.
pub open spec fn after_windows(p: PendingModel, windows: Seq<OsWindowModel>) -> (
    PhaseModel,
    ActionModel,
) {
    match p {
        PendingModel::FocusedWindow => match focused_window(windows) {
            Some(w) => (
                PhaseModel::WritingResponse { last: false },
                ActionModel::Respond(reply(ResponseModel::WindowId(w.id))),
            ),
            None => (PhaseModel::AwaitingConnection, ActionModel::Close(Failure::WindowNotFound)),
        },
        PendingModel::Open(o) => match target_window(o, windows) {
            Err(f) => (PhaseModel::AwaitingConnection, ActionModel::Close(f)),
            Ok(w) => match editor_path(w, o.path) {
                Err(f) => (PhaseModel::AwaitingConnection, ActionModel::Close(f)),
                Ok(rel) => start_open(w.id, rel, flag_of(o.flag)),
            },
        },
    }
}

/// What the server does once a connection is finished with.
pub open spec fn after_done(p: PhaseModel) -> (PhaseModel, ActionModel) {
    match p {
        PhaseModel::WritingResponse { last: true } => (PhaseModel::Stopped, ActionModel::Stop),
        _ => (PhaseModel::AwaitingConnection, ActionModel::Accept),
    }
}

/// How much handling is left before the current connection can be closed.
pub open spec fn work_left(p: PhaseModel) -> nat {
    match p {
        PhaseModel::ListingWindows(_) => 5,
        PhaseModel::Executing { commands, outputs, .. } => if outputs.len() < commands.len() {
            (commands.len() - outputs.len()) as nat
        } else {
            0
        },
        _ => 0,
    }
}

/// The pair of a phase and the action asked for in it.
pub open spec fn step_is(p: PhaseModel, a: ActionModel, expected: (PhaseModel, ActionModel)) -> bool {
    (p, a) == expected
}

enum Pending {
    FocusedWindow,
    Open(OpenInHelix),
}

enum Phase {
    AwaitingConnection,
    DecodingCommand,
    ListingWindows(Pending),
    Executing(Batch, Flag),
    WritingResponse(bool),
    Stopped,
}

/// The dispatch loop's state: which step of serving a connection it is in.
pub struct Server {
    phase: Phase,
}

fn copy_string(s: &String) -> (r: String)
    ensures
        r@ == s@,
{
    String::from_str(s.as_str())
}

fn copy_command(c: &ProcessCommand) -> (r: ProcessCommand)
    ensures
        r.deep_view() == c.deep_view(),
{
    let mut args: Vec<String> = Vec::new();
    let mut i: usize = 0;
    while i < c.args.len()
        invariant
            i <= c.args@.len(),
            args.deep_view() == c.args.deep_view().take(i as int),
        decreases c.args@.len() - i,
    {
        let ghost before = args.deep_view();
        let arg = copy_string(&c.args[i]);
        args.push(arg);
        assert(args.deep_view() =~= before.push(c.args@[i as int]@));
        assert(c.args.deep_view()[i as int] == c.args@[i as int]@);
        assert(args.deep_view() =~= c.args.deep_view().take(i + 1));
        i = i + 1;
    }
    assert(c.args.deep_view().take(i as int) =~= c.args.deep_view());
    ProcessCommand { program: copy_string(&c.program), args }
}

fn encode_response(r: Response) -> (b: Vec<u8>)
    ensures
        b@ == reply(r.deep_view()),
{
    let mut b: Vec<u8> = Vec::new();
    r.write(&mut b);
    assert(b@ =~= reply(r.deep_view()));
    b
}

/// Finds the window whose editor is to open the file of `o`.
pub fn find_target_window<'a>(o: &OpenInHelix, windows: &'a Vec<OsWindow>) -> (r: Result<
    &'a Window,
    Failure,
>)
    ensures
        match target_window(o.deep_view(), windows.deep_view()) {
            Ok(w) => r matches Ok(x) && x.deep_view() == w,
            Err(f) => r == Err::<&Window, Failure>(f),
        },
{
    match o.kitty_tab_id {
        Some(id) => match find_window_by_id(windows, id) {
            Some(w) => Ok(w),
            None => Err(Failure::WindowNotFound),
        },
        None => {
            let path = resolve_relative_path(windows, o.path.as_str());
            match find_workspace(windows, path.as_str()) {
                Some(w) => Ok(w),
                None => Err(Failure::WorkspaceNotFound),
            }
        },
    }
}

/// The path to type into the editor of `window`: an absolute path relative
/// to the window's working directory, a relative path as it is.
pub fn path_for_editor(window: &Window, path: &str) -> (r: Result<String, Failure>)
    ensures
        match editor_path(window.deep_view(), path@) {
            Ok(p) => r matches Ok(x) && x@ == p,
            Err(f) => r == Err::<String, Failure>(f),
        },
{
    if !is_absolute(path) {
        return Ok(String::from_str(path));
    }
    match window_cwd(window) {
        None => Err(Failure::UnknownWorkingDirectory),
        Some(cwd) => match strip_prefix(path, cwd.as_str()) {
            Some(rel) => Ok(rel),
            None => Err(Failure::OutsideWorkingDirectory),
        },
    }
}

impl Server {
    /// Model of the server's state.
    pub closed spec fn phase(&self) -> PhaseModel {
        match &self.phase {
            Phase::AwaitingConnection => PhaseModel::AwaitingConnection,
            Phase::DecodingCommand => PhaseModel::DecodingCommand,
            Phase::ListingWindows(Pending::FocusedWindow) => PhaseModel::ListingWindows(
                PendingModel::FocusedWindow,
            ),
            Phase::ListingWindows(Pending::Open(o)) => PhaseModel::ListingWindows(
                PendingModel::Open(o.deep_view()),
            ),
            Phase::Executing(b, f) => PhaseModel::Executing {
                commands: b.commands(),
                outputs: b.outputs(),
                flag: *f,
            },
            Phase::WritingResponse(last) => PhaseModel::WritingResponse { last: *last },
            Phase::Stopped => PhaseModel::Stopped,
        }
    }

    #[verifier::type_invariant]
    spec fn inv(&self) -> bool {
        match &self.phase {
            Phase::Executing(b, _) => !b.finished(),
            _ => true,
        }
    }

    /// A server waiting for its first connection.
    pub fn new() -> (r: Server)
        ensures
            r.phase() == PhaseModel::AwaitingConnection,
    {
        Server { phase: Phase::AwaitingConnection }
    }

    /// Whether the server has answered a `Shutdown` request and stopped.
    pub fn is_stopped(&self) -> (r: bool)
        ensures
            r == (self.phase() is Stopped),
    {
        matches!(self.phase, Phase::Stopped)
    }

    /// A connection was accepted: its request is read next.
    pub fn accepted(&mut self) -> (r: Action)
        requires
            old(self).phase() is AwaitingConnection,
        ensures
            final(self).phase() == PhaseModel::DecodingCommand,
            r.deep_view() == ActionModel::ReadRequest,
    {
        self.phase = Phase::DecodingCommand;
        Action::ReadRequest
    }

    /// Accepting failed: the server waits for the next connection.
    pub fn accept_failed(&mut self) -> (r: Action)
        requires
            old(self).phase() is AwaitingConnection,
        ensures
            final(self).phase() == PhaseModel::AwaitingConnection,
            r.deep_view() == ActionModel::Accept,
    {
        Action::Accept
    }

    fn advance(&mut self, batch: Batch, flag: Flag) -> (r: Action)
        ensures
            step_is(final(self).phase(), r.deep_view(), next_step(batch.commands(), batch.outputs(), flag)),
    {
        match batch.next_command() {
            Some(cmd) => {
                let cmd = copy_command(cmd);
                self.phase = Phase::Executing(batch, flag);
                Action::Run(cmd, flag)
            },
            None => {
                let out = batch.into_output();
                if !out.success() {
                    self.phase = Phase::AwaitingConnection;
                    Action::Close(Failure::CommandFailed(out.status))
                } else if flag == Flag::NoOp {
                    self.phase = Phase::WritingResponse(false);
                    Action::Respond(encode_response(Response::Ack))
                } else {
                    let ghost stdout = out.stdout@;
                    match utf8_string(out.stdout) {
                        Some(text) => {
                            proof {
                                encode_utf8_decode_utf8(text@);
                            }
                            self.phase = Phase::WritingResponse(false);
                            Action::Respond(encode_response(Response::Message(text)))
                        },
                        None => {
                            self.phase = Phase::AwaitingConnection;
                            Action::Close(Failure::InvalidOutput)
                        },
                    }
                }
            },
        }
    }

    fn start_open(&mut self, window: u32, path: &str, flag: Flag) -> (r: Action)
        ensures
            step_is(final(self).phase(), r.deep_view(), start_open(window, path@, flag)),
    {
        let batch = Batch::new(open_in_helix_commands(window, path));
        self.advance(batch, flag)
    }

    /// The request was read: it is decoded and handled.
    pub fn request_read(&mut self, request: &[u8]) -> (r: Action)
        requires
            old(self).phase() is DecodingCommand,
        ensures
            step_is(final(self).phase(), r.deep_view(), after_request(request@)),
    {
        assert(request@.skip(0) =~= request@);
        match Command::read(request, 0) {
            Err(e) => {
                self.phase = Phase::AwaitingConnection;
                Action::Close(Failure::Malformed(e))
            },
            Ok((Command::Shutdown, _)) => {
                self.phase = Phase::WritingResponse(true);
                Action::Respond(encode_response(Response::Ack))
            },
            Ok((Command::Echo(e), _)) => {
                self.phase = Phase::WritingResponse(false);
                Action::Respond(encode_response(Response::Message(e.message)))
            },
            Ok((Command::GetActiveFocusedWindow, _)) => {
                self.phase = Phase::ListingWindows(Pending::FocusedWindow);
                Action::ListWindows
            },
            Ok((Command::OpenInHelix(o), _)) => {
                self.phase = Phase::ListingWindows(Pending::Open(o));
                Action::ListWindows
            },
        }
    }

    /// The windows were listed: the pending request is answered from them.
    pub fn windows_listed(&mut self, windows: &Vec<OsWindow>) -> (r: Action)
        requires
            old(self).phase() is ListingWindows,
        ensures
            step_is(final(self).phase(), r.deep_view(), after_windows(
                old(self).phase()->ListingWindows_0, windows.deep_view())),
    {
        let mut phase = Phase::AwaitingConnection;
        std::mem::swap(&mut phase, &mut self.phase);
        match phase {
            Phase::ListingWindows(Pending::FocusedWindow) => match focused_active_window(windows) {
                Some(w) => {
                    self.phase = Phase::WritingResponse(false);
                    Action::Respond(encode_response(Response::WindowId(w.id)))
                },
                None => Action::Close(Failure::WindowNotFound),
            },
            Phase::ListingWindows(Pending::Open(o)) => {
                let window = match find_target_window(&o, windows) {
                    Ok(w) => w,
                    Err(f) => return Action::Close(f),
                };
                let path = match path_for_editor(window, o.path.as_str()) {
                    Ok(p) => p,
                    Err(f) => return Action::Close(f),
                };
                let flag = match o.flag {
                    Some(f) => f,
                    None => Flag::NoOp,
                };
                self.start_open(window.id, path.as_str(), flag)
            },
            _ => Action::Accept,
        }
    }

    /// The windows could not be listed: the connection is closed.
    pub fn windows_unavailable(&mut self) -> (r: Action)
        requires
            old(self).phase() is ListingWindows,
        ensures
            final(self).phase() == PhaseModel::AwaitingConnection,
            r.deep_view() == ActionModel::Close(Failure::WindowsUnavailable),
    {
        self.phase = Phase::AwaitingConnection;
        Action::Close(Failure::WindowsUnavailable)
    }

    /// The command of the last `Run` action produced `out`.
    pub fn command_ran(&mut self, out: Output) -> (r: Action)
        requires
            old(self).phase() is Executing,
        ensures
            step_is(final(self).phase(), r.deep_view(), next_step(
                old(self).phase()->commands,
                old(self).phase()->outputs.push(out.deep_view()),
                old(self).phase()->flag,
            )),
    {
        proof {
            use_type_invariant(&*self);
        }
        let mut phase = Phase::AwaitingConnection;
        std::mem::swap(&mut phase, &mut self.phase);
        match phase {
            Phase::Executing(mut batch, flag) => {
                batch.record(out);
                self.advance(batch, flag)
            },
            _ => Action::Accept,
        }
    }

    /// The command of the last `Run` action could not be executed.
    pub fn run_failed(&mut self, e: ExecError) -> (r: Action)
        requires
            old(self).phase() is Executing,
        ensures
            final(self).phase() == PhaseModel::AwaitingConnection,
            r.deep_view() == ActionModel::Close(Failure::Execution(e)),
    {
        self.phase = Phase::AwaitingConnection;
        Action::Close(Failure::Execution(e))
    }

    /// The connection was closed, after a response or without one.
    pub fn connection_done(&mut self) -> (r: Action)
        requires
            old(self).phase() is WritingResponse || old(self).phase() is AwaitingConnection,
        ensures
            step_is(final(self).phase(), r.deep_view(), after_done(old(self).phase())),
    {
        match self.phase {
            Phase::WritingResponse(true) => {
                self.phase = Phase::Stopped;
                Action::Stop
            },
            _ => {
                self.phase = Phase::AwaitingConnection;
                Action::Accept
            },
        }
    }
}

} // verus!
