//! The closed sets of requests and responses that travel on the wire.
//!
//! Both are tagged unions: a 64-bit ordinal, in declaration order from 0,
//! followed by the variant's payload. Ordinals are not self-describing, so
//! new variants may only be appended.

use crate::wire::{Parsed, WireRead, WireReadError, WireWrite};
use vstd::prelude::*;

verus! {

/// Whether a command's side effects are carried out or only simulated.
#[derive(Clone, Copy, Debug, PartialEq, Eq, Structural)]
pub enum Flag {
    /// Run external commands for real.
    NoOp,
    /// Never run anything; report what would have run.
    DryRun,
}

impl DeepView for Flag {
    type V = Flag;

    open spec fn deep_view(&self) -> Flag {
        *self
    }
}

/// Number of variants of `Flag`.
pub const FLAG_VARIANTS: u64 = 2;

/// The ordinal of a flag on the wire.
pub open spec fn flag_ordinal(f: Flag) -> u64 {
    match f {
        Flag::NoOp => 0,
        Flag::DryRun => 1,
    }
}

/// Encoding of a union ordinal.
pub open spec fn ordinal_wire(k: u64) -> Seq<u8> {
    <u64 as WireWrite>::wire(k)
}

impl WireWrite for Flag {
    open spec fn valid(v: Flag) -> bool {
        true
    }

    open spec fn wire(v: Flag) -> Seq<u8> {
        ordinal_wire(flag_ordinal(v))
    }

    fn write(&self, out: &mut Vec<u8>) {
        let k: u64 = match self {
            Flag::NoOp => 0,
            Flag::DryRun => 1,
        };
        k.write(out);
    }
}

impl WireRead for Flag {
    open spec fn parse(s: Seq<u8>) -> Parsed<Flag> {
        match <u64 as WireRead>::parse(s) {
            Err(e) => Err(e),
            Ok((k, n)) => if k == 0 {
                Ok((Flag::NoOp, n))
            } else if k == 1 {
                Ok((Flag::DryRun, n))
            } else {
                Err(WireReadError::InvalidOrdinal(k))
            },
        }
    }

    proof fn lemma_round_trip(v: Flag, rest: Seq<u8>) {
        <u64 as WireRead>::lemma_round_trip(flag_ordinal(v), rest);
    }

    fn read(input: &[u8], pos: usize) -> (r: Result<(Flag, usize), WireReadError>) {
        match u64::read(input, pos) {
            Err(e) => Err(e),
            Ok((k, q)) => if k == 0 {
                Ok((Flag::NoOp, q))
            } else if k == 1 {
                Ok((Flag::DryRun, q))
            } else {
                Err(WireReadError::InvalidOrdinal(k))
            },
        }
    }
}

/// Request to send a text back unchanged.
#[derive(Clone, Debug, PartialEq, Eq)]
pub struct Echo {
    pub message: String,
}

impl DeepView for Echo {
    type V = Seq<char>;

    open spec fn deep_view(&self) -> Seq<char> {
        self.message@
    }
}

impl WireWrite for Echo {
    open spec fn valid(v: Seq<char>) -> bool {
        <String as WireWrite>::valid(v)
    }

    open spec fn wire(v: Seq<char>) -> Seq<u8> {
        <String as WireWrite>::wire(v)
    }

    fn write(&self, out: &mut Vec<u8>) {
        self.message.write(out);
    }
}

impl WireRead for Echo {
    open spec fn parse(s: Seq<u8>) -> Parsed<Seq<char>> {
        <String as WireRead>::parse(s)
    }

    proof fn lemma_round_trip(v: Seq<char>, rest: Seq<u8>) {
        <String as WireRead>::lemma_round_trip(v, rest);
    }

    fn read(input: &[u8], pos: usize) -> (r: Result<(Echo, usize), WireReadError>) {
        match String::read(input, pos) {
            Ok((message, q)) => Ok((Echo { message }, q)),
            Err(e) => Err(e),
        }
    }
}

/// Model of an `OpenInHelix` request.
pub struct OpenInHelixModel {
    pub path: Seq<char>,
    pub kitty_tab_id: Option<u32>,
    pub flag: Option<Flag>,
}

/// Request to open a file in the editor running in a terminal window: the
/// window given by id, or else the one whose workspace holds the file.
#[derive(Clone, Debug, PartialEq, Eq)]
pub struct OpenInHelix {
    pub path: String,
    pub kitty_tab_id: Option<u32>,
    pub flag: Option<Flag>,
}

impl DeepView for OpenInHelix {
    type V = OpenInHelixModel;

    open spec fn deep_view(&self) -> OpenInHelixModel {
        OpenInHelixModel { path: self.path@, kitty_tab_id: self.kitty_tab_id, flag: self.flag }
    }
}

impl WireWrite for OpenInHelix {
    open spec fn valid(v: OpenInHelixModel) -> bool {
        <String as WireWrite>::valid(v.path)
    }

    open spec fn wire(v: OpenInHelixModel) -> Seq<u8> {
        <String as WireWrite>::wire(v.path) + <Option<u32> as WireWrite>::wire(v.kitty_tab_id)
            + <Option<Flag> as WireWrite>::wire(v.flag)
    }

    fn write(&self, out: &mut Vec<u8>) {
        self.path.write(out);
        self.kitty_tab_id.write(out);
        self.flag.write(out);
        assert(final(out)@ =~= old(out)@ + Self::wire(self.deep_view()));
    }
}

impl WireRead for OpenInHelix {
    open spec fn parse(s: Seq<u8>) -> Parsed<OpenInHelixModel> {
        match <String as WireRead>::parse(s) {
            Err(e) => Err(e),
            Ok((path, a)) => match <Option<u32> as WireRead>::parse(s.skip(a as int)) {
                Err(e) => Err(e),
                Ok((kitty_tab_id, b)) => match <Option<Flag> as WireRead>::parse(
                    s.skip((a + b) as int),
                ) {
                    Err(e) => Err(e),
                    Ok((flag, c)) => Ok(
                        (OpenInHelixModel { path, kitty_tab_id, flag }, a + b + c),
                    ),
                },
            },
        }
    }

    proof fn lemma_round_trip(v: OpenInHelixModel, rest: Seq<u8>) {
        let w1 = <String as WireWrite>::wire(v.path);
        let w2 = <Option<u32> as WireWrite>::wire(v.kitty_tab_id);
        let w3 = <Option<Flag> as WireWrite>::wire(v.flag);
        let s = Self::wire(v) + rest;
        assert(s =~= w1 + (w2 + (w3 + rest)));
        <String as WireRead>::lemma_round_trip(v.path, w2 + (w3 + rest));
        assert(s.skip(w1.len() as int) =~= w2 + (w3 + rest));
        <Option<u32> as WireRead>::lemma_round_trip(v.kitty_tab_id, w3 + rest);
        assert(s.skip((w1.len() + w2.len()) as int) =~= w3 + rest);
        <Option<Flag> as WireRead>::lemma_round_trip(v.flag, rest);
    }

    fn read(input: &[u8], pos: usize) -> (r: Result<(OpenInHelix, usize), WireReadError>) {
        let ghost s = input@.skip(pos as int);
        let (path, after_path) = match String::read(input, pos) {
            Ok(x) => x,
            Err(e) => return Err(e),
        };
        assert(s.skip(after_path - pos) =~= input@.skip(after_path as int));
        let (kitty_tab_id, after_window) = match Option::<u32>::read(input, after_path) {
            Ok(x) => x,
            Err(e) => return Err(e),
        };
        assert(s.skip(after_window - pos) =~= input@.skip(after_window as int));
        let (flag, end) = match Option::<Flag>::read(input, after_window) {
            Ok(x) => x,
            Err(e) => return Err(e),
        };
        Ok((OpenInHelix { path, kitty_tab_id, flag }, end))
    }
}

/// Model of a request.
pub enum CommandModel {
    Shutdown,
    Echo(Seq<char>),
    GetActiveFocusedWindow,
    OpenInHelix(OpenInHelixModel),
}

/// A request from the client to the server.
#[derive(Clone, Debug, PartialEq, Eq)]
pub enum Command {
    /// Stop the server once this request is answered.
    Shutdown,
    /// Send the message back.
    Echo(Echo),
    /// Report the id of the active, focused terminal window.
    GetActiveFocusedWindow,
    /// Open a file in the editor.
    OpenInHelix(OpenInHelix),
}

/// Number of variants of `Command`.
pub const COMMAND_VARIANTS: u64 = 4;

impl DeepView for Command {
    type V = CommandModel;

    open spec fn deep_view(&self) -> CommandModel {
        match self {
            Command::Shutdown => CommandModel::Shutdown,
            Command::Echo(e) => CommandModel::Echo(e.deep_view()),
            Command::GetActiveFocusedWindow => CommandModel::GetActiveFocusedWindow,
            Command::OpenInHelix(o) => CommandModel::OpenInHelix(o.deep_view()),
        }
    }
}

/// The ordinal of a request on the wire.
pub open spec fn command_ordinal(c: CommandModel) -> u64 {
    match c {
        CommandModel::Shutdown => 0,
        CommandModel::Echo(_) => 1,
        CommandModel::GetActiveFocusedWindow => 2,
        CommandModel::OpenInHelix(_) => 3,
    }
}

/// The payload that follows the ordinal of a request.
pub open spec fn command_payload(c: CommandModel) -> Seq<u8> {
    match c {
        CommandModel::Shutdown => seq![],
        CommandModel::Echo(m) => <Echo as WireWrite>::wire(m),
        CommandModel::GetActiveFocusedWindow => seq![],
        CommandModel::OpenInHelix(o) => <OpenInHelix as WireWrite>::wire(o),
    }
}

impl WireWrite for Command {
    open spec fn valid(v: CommandModel) -> bool {
        match v {
            CommandModel::Echo(m) => <Echo as WireWrite>::valid(m),
            CommandModel::OpenInHelix(o) => <OpenInHelix as WireWrite>::valid(o),
            _ => true,
        }
    }

    open spec fn wire(v: CommandModel) -> Seq<u8> {
        ordinal_wire(command_ordinal(v)) + command_payload(v)
    }

    fn write(&self, out: &mut Vec<u8>) {
        match self {
            Command::Shutdown => {
                0u64.write(out);
            },
            Command::Echo(e) => {
                1u64.write(out);
                e.write(out);
            },
            Command::GetActiveFocusedWindow => {
                2u64.write(out);
            },
            Command::OpenInHelix(o) => {
                3u64.write(out);
                o.write(out);
            },
        }
        assert(final(out)@ =~= old(out)@ + Self::wire(self.deep_view()));
    }
}

impl WireRead for Command {
    open spec fn parse(s: Seq<u8>) -> Parsed<CommandModel> {
        match <u64 as WireRead>::parse(s) {
            Err(e) => Err(e),
            Ok((k, n)) => if k == 0 {
                Ok((CommandModel::Shutdown, n))
            } else if k == 1 {
                match <Echo as WireRead>::parse(s.skip(n as int)) {
                    Ok((m, j)) => Ok((CommandModel::Echo(m), n + j)),
                    Err(e) => Err(e),
                }
            } else if k == 2 {
                Ok((CommandModel::GetActiveFocusedWindow, n))
            } else if k == 3 {
                match <OpenInHelix as WireRead>::parse(s.skip(n as int)) {
                    Ok((o, j)) => Ok((CommandModel::OpenInHelix(o), n + j)),
                    Err(e) => Err(e),
                }
            } else {
                Err(WireReadError::InvalidOrdinal(k))
            },
        }
    }

    proof fn lemma_round_trip(v: CommandModel, rest: Seq<u8>) {
        let payload = command_payload(v);
        let s = Self::wire(v) + rest;
        assert(s =~= ordinal_wire(command_ordinal(v)) + (payload + rest));
        <u64 as WireRead>::lemma_round_trip(command_ordinal(v), payload + rest);
        assert(s.skip(8) =~= payload + rest);
        match v {
            CommandModel::Echo(m) => <Echo as WireRead>::lemma_round_trip(m, rest),
            CommandModel::OpenInHelix(o) => <OpenInHelix as WireRead>::lemma_round_trip(o, rest),
            _ => {},
        }
    }

    fn read(input: &[u8], pos: usize) -> (r: Result<(Command, usize), WireReadError>) {
        let (k, p) = match u64::read(input, pos) {
            Ok(x) => x,
            Err(e) => return Err(e),
        };
        assert(input@.skip(pos as int).skip(p - pos) =~= input@.skip(p as int));
        if k == 0 {
            Ok((Command::Shutdown, p))
        } else if k == 1 {
            match Echo::read(input, p) {
                Ok((e, q)) => Ok((Command::Echo(e), q)),
                Err(e) => Err(e),
            }
        } else if k == 2 {
            Ok((Command::GetActiveFocusedWindow, p))
        } else if k == 3 {
            match OpenInHelix::read(input, p) {
                Ok((o, q)) => Ok((Command::OpenInHelix(o), q)),
                Err(e) => Err(e),
            }
        } else {
            Err(WireReadError::InvalidOrdinal(k))
        }
    }
}

/// Model of a reply.
pub enum ResponseModel {
    Ack,
    Message(Seq<char>),
    WindowId(u32),
}

/// A reply from the server to the client.
#[derive(Clone, Debug, PartialEq, Eq)]
pub enum Response {
    /// The request was carried out.
    Ack,
    /// A text for the client to show.
    Message(String),
    /// The id of a terminal window.
    WindowId(u32),
}

/// Number of variants of `Response`.
pub const RESPONSE_VARIANTS: u64 = 3;

impl DeepView for Response {
    type V = ResponseModel;

    open spec fn deep_view(&self) -> ResponseModel {
        match self {
            Response::Ack => ResponseModel::Ack,
            Response::Message(m) => ResponseModel::Message(m@),
            Response::WindowId(id) => ResponseModel::WindowId(*id),
        }
    }
}

/// The ordinal of a reply on the wire.
pub open spec fn response_ordinal(r: ResponseModel) -> u64 {
    match r {
        ResponseModel::Ack => 0,
        ResponseModel::Message(_) => 1,
        ResponseModel::WindowId(_) => 2,
    }
}

/// The payload that follows the ordinal of a reply.
pub open spec fn response_payload(r: ResponseModel) -> Seq<u8> {
    match r {
        ResponseModel::Ack => seq![],
        ResponseModel::Message(m) => <String as WireWrite>::wire(m),
        ResponseModel::WindowId(id) => <u32 as WireWrite>::wire(id),
    }
}

impl WireWrite for Response {
    open spec fn valid(v: ResponseModel) -> bool {
        match v {
            ResponseModel::Message(m) => <String as WireWrite>::valid(m),
            _ => true,
        }
    }

    open spec fn wire(v: ResponseModel) -> Seq<u8> {
        ordinal_wire(response_ordinal(v)) + response_payload(v)
    }

    fn write(&self, out: &mut Vec<u8>) {
        match self {
            Response::Ack => {
                0u64.write(out);
            },
            Response::Message(m) => {
                1u64.write(out);
                m.write(out);
            },
            Response::WindowId(id) => {
                2u64.write(out);
                id.write(out);
            },
        }
        assert(final(out)@ =~= old(out)@ + Self::wire(self.deep_view()));
    }
}

impl WireRead for Response {
    open spec fn parse(s: Seq<u8>) -> Parsed<ResponseModel> {
        match <u64 as WireRead>::parse(s) {
            Err(e) => Err(e),
            Ok((k, n)) => if k == 0 {
                Ok((ResponseModel::Ack, n))
            } else if k == 1 {
                match <String as WireRead>::parse(s.skip(n as int)) {
                    Ok((m, j)) => Ok((ResponseModel::Message(m), n + j)),
                    Err(e) => Err(e),
                }
            } else if k == 2 {
                match <u32 as WireRead>::parse(s.skip(n as int)) {
                    Ok((id, j)) => Ok((ResponseModel::WindowId(id), n + j)),
                    Err(e) => Err(e),
                }
            } else {
                Err(WireReadError::InvalidOrdinal(k))
            },
        }
    }

    proof fn lemma_round_trip(v: ResponseModel, rest: Seq<u8>) {
        let payload = response_payload(v);
        let s = Self::wire(v) + rest;
        assert(s =~= ordinal_wire(response_ordinal(v)) + (payload + rest));
        <u64 as WireRead>::lemma_round_trip(response_ordinal(v), payload + rest);
        assert(s.skip(8) =~= payload + rest);
        match v {
            ResponseModel::Message(m) => <String as WireRead>::lemma_round_trip(m, rest),
            ResponseModel::WindowId(id) => <u32 as WireRead>::lemma_round_trip(id, rest),
            _ => {},
        }
    }

    fn read(input: &[u8], pos: usize) -> (r: Result<(Response, usize), WireReadError>) {
        let (k, p) = match u64::read(input, pos) {
            Ok(x) => x,
            Err(e) => return Err(e),
        };
        assert(input@.skip(pos as int).skip(p - pos) =~= input@.skip(p as int));
        if k == 0 {
            Ok((Response::Ack, p))
        } else if k == 1 {
            match String::read(input, p) {
                Ok((m, q)) => Ok((Response::Message(m), q)),
                Err(e) => Err(e),
            }
        } else if k == 2 {
            match u32::read(input, p) {
                Ok((id, q)) => Ok((Response::WindowId(id), q)),
                Err(e) => Err(e),
            }
        } else {
            Err(WireReadError::InvalidOrdinal(k))
        }
    }
}

/// The encoding of every request begins with the 64-bit encoding of its
/// ordinal.
pub proof fn lemma_command_ordinal(c: CommandModel)
    ensures
        <Command as WireWrite>::wire(c).take(8) == <u64 as WireWrite>::wire(command_ordinal(c)),
        command_ordinal(c) < COMMAND_VARIANTS,
{
    crate::num::lemma_be_bytes_len(command_ordinal(c) as nat, 8);
    assert(<Command as WireWrite>::wire(c).take(8) =~= ordinal_wire(command_ordinal(c)));
}

/// Bytes that begin with an ordinal past the last request variant fail to
/// decode as an invalid ordinal, whatever follows.
pub proof fn lemma_command_ordinal_out_of_range(k: u64, rest: Seq<u8>)
    requires
        k >= COMMAND_VARIANTS,
    ensures
        <Command as WireRead>::parse(ordinal_wire(k) + rest) == Parsed::<CommandModel>::Err(
            WireReadError::InvalidOrdinal(k),
        ),
{
    <u64 as WireRead>::lemma_round_trip(k, rest);
}

/// The encoding of every reply begins with the 64-bit encoding of its ordinal.
pub proof fn lemma_response_ordinal(r: ResponseModel)
    ensures
        <Response as WireWrite>::wire(r).take(8) == <u64 as WireWrite>::wire(response_ordinal(r)),
        response_ordinal(r) < RESPONSE_VARIANTS,
{
    crate::num::lemma_be_bytes_len(response_ordinal(r) as nat, 8);
    assert(<Response as WireWrite>::wire(r).take(8) =~= ordinal_wire(response_ordinal(r)));
}

/// Bytes that begin with an ordinal past the last reply variant fail to
/// decode as an invalid ordinal, whatever follows.
pub proof fn lemma_response_ordinal_out_of_range(k: u64, rest: Seq<u8>)
    requires
        k >= RESPONSE_VARIANTS,
    ensures
        <Response as WireRead>::parse(ordinal_wire(k) + rest) == Parsed::<ResponseModel>::Err(
            WireReadError::InvalidOrdinal(k),
        ),
{
    <u64 as WireRead>::lemma_round_trip(k, rest);
}

/// The encoding of a flag is the 64-bit encoding of its ordinal, and ordinals
/// past the last flag fail to decode as invalid.
pub proof fn lemma_flag_ordinal(f: Flag, k: u64, rest: Seq<u8>)
    requires
        k >= FLAG_VARIANTS,
    ensures
        <Flag as WireWrite>::wire(f) == <u64 as WireWrite>::wire(flag_ordinal(f)),
        flag_ordinal(f) < FLAG_VARIANTS,
        <Flag as WireRead>::parse(ordinal_wire(k) + rest) == Parsed::<Flag>::Err(
            WireReadError::InvalidOrdinal(k),
        ),
{
    <u64 as WireRead>::lemma_round_trip(k, rest);
}

} // verus!
