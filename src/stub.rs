//! An in-memory stand-in for the server's socket, and a dispatch loop over
//! it: deterministic protocol runs without real sockets or processes.

use crate::envelope::{Command, CommandModel};
use crate::envelope::{Flag, ResponseModel};
use crate::executor::{
    aggregate, batch_finished, dry_run_output, DryRun, OutputModel,
    ProcessCommandModel,
};
use crate::server::{
    after_done, after_request, after_windows, finish, next_step, reply, work_left, Action,
    ActionModel, PhaseModel, Server,
};
use crate::terminal::OsWindowModel;
use crate::terminal::OsWindow;
use crate::wire::{push_all, WireRead};
use vstd::prelude::*;

verus! {

/// A duplex byte stream held in memory: bytes waiting to be read, and a
/// buffer that captures what is written.
pub struct ReaderWriterStub {
    to_read: Vec<u8>,
    written: Vec<u8>,
}

impl ReaderWriterStub {
    /// The bytes the stream offers for reading.
    pub closed spec fn readable(&self) -> Seq<u8> {
        self.to_read@
    }

    /// The bytes written to the stream so far.
    pub closed spec fn captured(&self) -> Seq<u8> {
        self.written@
    }

    /// A stream that offers `to_read` and has nothing written yet.
    pub fn new(to_read: Vec<u8>) -> (r: ReaderWriterStub)
        ensures
            r.readable() == to_read@,
            r.captured() == Seq::<u8>::empty(),
    {
        ReaderWriterStub { to_read, written: Vec::new() }
    }

    /// The bytes written to the stream so far.
    pub fn written(&self) -> (r: &Vec<u8>)
        ensures
            r@ == self.captured(),
    {
        &self.written
    }

    /// The bytes the stream offers for reading.
    pub fn to_read(&self) -> (r: &[u8])
        ensures
            r@ == self.readable(),
    {
        self.to_read.as_slice()
    }

    /// Writes `bytes` to the stream.
    pub fn write_all(&mut self, bytes: &[u8])
        ensures
            final(self).readable() == old(self).readable(),
            final(self).captured() == old(self).captured() + bytes@,
    {
        push_all(&mut self.written, bytes);
    }
}

/// A listener whose connections are streams prepared in advance; accepting
/// hands them out in order, and fails once none is left.
pub struct StubListener {
    pending: Vec<ReaderWriterStub>,
    served: Vec<ReaderWriterStub>,
}

/// What each of `conns` offers for reading.
pub open spec fn requests_of(conns: Seq<ReaderWriterStub>) -> Seq<Seq<u8>> {
    Seq::new(conns.len(), |i: int| conns[i].readable())
}

/// What was written to each of `conns`.
pub open spec fn captures_of(conns: Seq<ReaderWriterStub>) -> Seq<Seq<u8>> {
    Seq::new(conns.len(), |i: int| conns[i].captured())
}

impl StubListener {
    /// The requests of the connections not yet accepted, in order.
    pub closed spec fn pending_requests(&self) -> Seq<Seq<u8>> {
        requests_of(self.pending@)
    }

    /// What was already written to the connections not yet accepted.
    pub closed spec fn pending_captures(&self) -> Seq<Seq<u8>> {
        captures_of(self.pending@)
    }

    /// The requests of the connections accepted so far, in order.
    pub closed spec fn served_requests(&self) -> Seq<Seq<u8>> {
        requests_of(self.served@)
    }

    /// What was written to each connection accepted so far, in order.
    pub closed spec fn served_captures(&self) -> Seq<Seq<u8>> {
        captures_of(self.served@)
    }

    /// How many connections were accepted and finished with.
    pub open spec fn served_count(&self) -> nat {
        self.served_requests().len()
    }

    /// A listener that will hand out `connections` in order.
    pub fn new(connections: Vec<ReaderWriterStub>) -> (r: StubListener)
        ensures
            r.pending_requests() == requests_of(connections@),
            r.pending_captures() == captures_of(connections@),
            r.served_requests() == Seq::<Seq<u8>>::empty(),
            r.served_captures() == Seq::<Seq<u8>>::empty(),
    {
        let r = StubListener { pending: connections, served: Vec::new() };
        assert(r.served_requests() =~= Seq::<Seq<u8>>::empty());
        assert(r.served_captures() =~= Seq::<Seq<u8>>::empty());
        r
    }

    /// The next connection, or none when all were handed out.
    pub fn accept(&mut self) -> (r: Option<ReaderWriterStub>)
        ensures
            r is None <==> old(self).pending_requests().len() == 0,
            r matches Some(c) ==> c.readable() == old(self).pending_requests()[0]
                && c.captured() == old(self).pending_captures()[0]
                && final(self).pending_requests() == old(self).pending_requests().drop_first()
                && final(self).pending_captures() == old(self).pending_captures().drop_first(),
            r is None ==> final(self).pending_requests() == old(self).pending_requests()
                && final(self).pending_captures() == old(self).pending_captures(),
            final(self).served_requests() == old(self).served_requests(),
            final(self).served_captures() == old(self).served_captures(),
    {
        if self.pending.len() == 0 {
            None
        } else {
            let c = self.pending.remove(0);
            assert(self.pending_requests() =~= old(self).pending_requests().drop_first());
            assert(self.pending_captures() =~= old(self).pending_captures().drop_first());
            Some(c)
        }
    }

    /// Keeps a connection that was finished with, so that what was written
    /// to it can be looked at.
    pub fn finish(&mut self, conn: ReaderWriterStub)
        ensures
            final(self).pending_requests() == old(self).pending_requests(),
            final(self).pending_captures() == old(self).pending_captures(),
            final(self).served_requests() == old(self).served_requests().push(conn.readable()),
            final(self).served_captures() == old(self).served_captures().push(conn.captured()),
    {
        self.served.push(conn);
        assert(self.served_requests() =~= old(self).served_requests().push(conn.readable()));
        assert(self.served_captures() =~= old(self).served_captures().push(conn.captured()));
    }

    /// How many connections were accepted and finished with.
    pub fn accepted(&self) -> (r: usize)
        ensures
            r == self.served_count(),
    {
        self.served.len()
    }

    /// The connections accepted so far, in order.
    pub fn served(&self) -> (r: &Vec<ReaderWriterStub>)
        ensures
            requests_of(r@) == self.served_requests(),
            captures_of(r@) == self.served_captures(),
    {
        &self.served
    }

    /// The connections not accepted yet, in order.
    pub fn remaining(&self) -> (r: &Vec<ReaderWriterStub>)
        ensures
            requests_of(r@) == self.pending_requests(),
            captures_of(r@) == self.pending_captures(),
    {
        &self.pending
    }
}

/// Whether a request decodes to `Shutdown`.
pub open spec fn is_shutdown(request: Seq<u8>) -> bool {
    <Command as WireRead>::parse(request) matches Ok((CommandModel::Shutdown, _))
}

/// How many of `requests`, taken in order, a server accepts: all of them up
/// to and including the first `Shutdown`.
pub open spec fn connections_served(requests: Seq<Seq<u8>>) -> nat
    decreases requests.len(),
{
    if requests.len() == 0 {
        0
    } else if is_shutdown(requests[0]) {
        1
    } else {
        1 + connections_served(requests.drop_first())
    }
}

/// The server is handling a connection and has asked for `a`.
pub open spec fn handling(p: PhaseModel, a: ActionModel) -> bool {
    match a {
        ActionModel::ListWindows => p is ListingWindows,
        ActionModel::Run(c, f) => p matches PhaseModel::Executing { commands, outputs, flag }
            && outputs.len() < commands.len() && !batch_finished(commands.len(), outputs)
            && c == commands[outputs.len() as int] && f == flag,
        ActionModel::Respond(_) => p is WritingResponse,
        ActionModel::Close(_) => p is AwaitingConnection,
        _ => false,
    }
}

/// Whether the server will stop once this connection is closed.
pub open spec fn stops_after(p: PhaseModel) -> bool {
    p matches PhaseModel::WritingResponse { last } && last
}

/// The bytes a step writes back: those of a response, none otherwise.
pub open spec fn reply_bytes(a: ActionModel) -> Seq<u8> {
    match a {
        ActionModel::Respond(b) => b,
        _ => seq![],
    }
}

/// What a dry run of the commands of `cmds` not yet run adds to `outs`.
pub open spec fn dry_outputs(cmds: Seq<ProcessCommandModel>, outs: Seq<OutputModel>) -> Seq<
    OutputModel,
> {
    outs + cmds.skip(outs.len() as int).map_values(|c: ProcessCommandModel| dry_run_output(c))
}

/// What the server writes back from step `(p, a)` on, once every command
/// line is dry-run and the windows are `windows`.
pub open spec fn reply_from(p: PhaseModel, a: ActionModel, windows: Seq<OsWindowModel>) -> Seq<u8> {
    match (p, a) {
        (PhaseModel::ListingWindows(pending), ActionModel::ListWindows) => {
            let (next_phase, next_action) = after_windows(pending, windows);
            reply_settled(next_phase, next_action)
        },
        _ => reply_settled(p, a),
    }
}

/// What the server writes back from a step that needs no window listing.
pub open spec fn reply_settled(p: PhaseModel, a: ActionModel) -> Seq<u8> {
    match (p, a) {
        (PhaseModel::Executing { commands, outputs, flag }, ActionModel::Run(_, _)) => reply_bytes(
            finish(aggregate(dry_outputs(commands, outputs)), flag).1,
        ),
        _ => reply_bytes(a),
    }
}

/// What the server writes back to a connection carrying `request`, when
/// every command line is dry-run and the windows are `windows`: the encoded
/// response, or nothing when the connection is closed without one.
pub open spec fn connection_reply(request: Seq<u8>, windows: Seq<OsWindowModel>) -> Seq<u8> {
    reply_from(after_request(request).0, after_request(request).1, windows)
}

proof fn lemma_dry_step(cmds: Seq<ProcessCommandModel>, outs: Seq<OutputModel>, flag: Flag)
    requires
        outs.len() < cmds.len(),
        !batch_finished(cmds.len(), outs),
    ensures
        ({
            let (next_phase, next_action) = next_step(cmds, outs.push(dry_run_output(cmds[outs.len() as int])), flag);
            reply_settled(next_phase, next_action) == reply_bytes(finish(aggregate(dry_outputs(cmds, outs)), flag).1)
                && (next_action is Run ==> next_phase is Executing)
        }),
{
    let k = outs.len() as int;
    let outs2 = outs.push(dry_run_output(cmds[k]));
    assert(dry_outputs(cmds, outs2) =~= dry_outputs(cmds, outs));
    if outs2.len() >= cmds.len() {
        assert(dry_outputs(cmds, outs2) =~= outs2);
    }
}

/// Handles one accepted connection: decodes its request, answers it, and
/// writes the response, if any, to the connection.
#[verifier::rlimit(40)]
fn serve_connection(server: &mut Server, conn: &mut ReaderWriterStub, windows: &Vec<OsWindow>)
    requires
        old(server).phase() is DecodingCommand,
    ensures
        final(server).phase() is WritingResponse || final(server).phase() is AwaitingConnection,
        stops_after(final(server).phase()) <==> is_shutdown(old(conn).readable()),
        final(conn).readable() == old(conn).readable(),
        final(conn).captured() == old(conn).captured() + connection_reply(
            old(conn).readable(),
            windows.deep_view(),
        ),
{
    let ghost request = conn.readable();
    let ghost start = conn.captured();
    let ghost expected = connection_reply(request, windows.deep_view());
    let mut action = server.request_read(conn.to_read());
    loop
        invariant_except_break
            conn.captured() == start,
        invariant
            conn.readable() == request,
            expected == connection_reply(request, windows.deep_view()),
            handling(server.phase(), action.deep_view()),
            stops_after(server.phase()) <==> is_shutdown(request),
            reply_from(server.phase(), action.deep_view(), windows.deep_view()) == expected,
            action.deep_view() is ListWindows ==> server.phase() == after_request(request).0,
        ensures
            server.phase() is WritingResponse || server.phase() is AwaitingConnection,
            stops_after(server.phase()) <==> is_shutdown(request),
            conn.readable() == request,
            conn.captured() == start + expected,
        decreases work_left(server.phase()),
    {
        match action {
            Action::ListWindows => {
                action = server.windows_listed(windows);
            },
            Action::Run(cmd, flag) => {
                let ghost p = server.phase();
                proof {
                    lemma_dry_step(p->commands, p->outputs, p->flag);
                }
                action = match DryRun.execute(&cmd, flag) {
                    Ok(out) => server.command_ran(out),
                    Err(e) => server.run_failed(e),
                };
            },
            Action::Respond(bytes) => {
                conn.write_all(bytes.as_slice());
                break ;
            },
            _ => {
                assert(start + expected =~= start);
                break ;
            },
        }
    }
}

/// Runs the dispatch loop over the connections of `listener`, in order, with
/// every command line dry-run and `windows` as the terminal's windows. It
/// returns once a `Shutdown` request has been answered, or when no
/// connection is left. Each accepted connection is kept, in accept order,
/// with its response written to it, or nothing when it was closed without
/// one; the connections not accepted are left untouched.
pub fn listen(listener: &mut StubListener, windows: &Vec<OsWindow>)
    ensures
        ({
            let n = connections_served(old(listener).pending_requests());
            let before = old(listener).served_count();
            &&& final(listener).served_count() == before + n
            &&& final(listener).pending_requests() == old(listener).pending_requests().skip(n as int)
            &&& final(listener).pending_captures() == old(listener).pending_captures().skip(n as int)
            &&& final(listener).served_requests() == old(listener).served_requests()
                + old(listener).pending_requests().take(n as int)
            &&& forall|i: int|
                0 <= i < before ==> #[trigger] final(listener).served_captures()[i]
                    == old(listener).served_captures()[i]
            &&& forall|i: int|
                0 <= i < n ==> #[trigger] final(listener).served_captures()[before + i]
                    == old(listener).pending_captures()[i] + connection_reply(
                    old(listener).pending_requests()[i],
                    windows.deep_view(),
                )
        }),
{
    let ghost start = listener.served_count();
    let ghost requests = listener.pending_requests();
    let ghost captures = listener.pending_captures();
    let ghost served0 = listener.served_requests();
    let ghost caps0 = listener.served_captures();
    let mut server = Server::new();
    assert(requests.skip(0) =~= requests);
    assert(captures.skip(0) =~= captures);
    assert(served0 + requests.take(0) =~= served0);
    loop
        invariant
            server.phase() is AwaitingConnection || server.phase() is Stopped,
            start == served0.len(),
            caps0.len() == start,
            captures.len() == requests.len(),
            start <= listener.served_count() <= start + requests.len(),
            listener.pending_requests() == requests.skip(listener.served_count() - start),
            listener.pending_captures() == captures.skip(listener.served_count() - start),
            listener.served_requests() == served0 + requests.take(listener.served_count() - start),
            listener.served_captures().len() == listener.served_count(),
            forall|i: int| 0 <= i < start ==> #[trigger] listener.served_captures()[i] == caps0[i],
            forall|i: int|
                0 <= i < listener.served_count() - start ==> #[trigger] listener.served_captures()[start
                    + i] == captures[i] + connection_reply(requests[i], windows.deep_view()),
            server.phase() is Stopped ==> connections_served(requests) == listener.served_count()
                - start,
            !(server.phase() is Stopped) ==> connections_served(requests) == listener.served_count()
                - start + connections_served(listener.pending_requests()),
        ensures
            listener.served_count() == start + connections_served(requests),
            listener.pending_requests() == requests.skip(listener.served_count() - start),
            listener.pending_captures() == captures.skip(listener.served_count() - start),
            listener.served_requests() == served0 + requests.take(listener.served_count() - start),
            forall|i: int| 0 <= i < start ==> #[trigger] listener.served_captures()[i] == caps0[i],
            forall|i: int|
                0 <= i < listener.served_count() - start ==> #[trigger] listener.served_captures()[start
                    + i] == captures[i] + connection_reply(requests[i], windows.deep_view()),
        decreases listener.pending_requests().len(),
    {
        if server.is_stopped() {
            break ;
        }
        let ghost k = listener.served_count() - start;
        let mut conn = match listener.accept() {
            Some(c) => c,
            None => break ,
        };
        assert(requests.skip(k)[0] == requests[k]);
        assert(captures.skip(k)[0] == captures[k]);
        let _ = server.accepted();
        serve_connection(&mut server, &mut conn, windows);
        let _ = server.connection_done();
        listener.finish(conn);
        proof {
            assert(requests.skip(k).drop_first() =~= requests.skip(k + 1));
            assert(captures.skip(k).drop_first() =~= captures.skip(k + 1));
            assert(served0 + requests.take(k) + seq![requests[k]] =~= served0 + requests.take(k + 1));
            assert(listener.served_requests() =~= served0 + requests.take(k + 1));
        }
    }
}

/// A `Shutdown` request is answered with `Ack`, after which the server stops
/// and accepts no further connection: among any connections, one that starts
/// with `Shutdown` is the only one served.
pub proof fn lemma_shutdown_stops(rest: Seq<u8>, requests: Seq<Seq<u8>>)
    ensures
        after_request(<Command as crate::wire::WireWrite>::wire(CommandModel::Shutdown) + rest)
            == (PhaseModel::WritingResponse { last: true }, ActionModel::Respond(
            crate::server::reply(crate::envelope::ResponseModel::Ack),
        )),
        after_done(PhaseModel::WritingResponse { last: true }) == (
            PhaseModel::Stopped,
            ActionModel::Stop,
        ),
        requests.len() > 0 && is_shutdown(requests[0]) ==> connections_served(requests) == 1,
        is_shutdown(<Command as crate::wire::WireWrite>::wire(CommandModel::Shutdown) + rest),
{
    <Command as WireRead>::lemma_round_trip(CommandModel::Shutdown, rest);
}

/// An echo request run through the loop gets back the encoded message.
pub proof fn lemma_echo_reply(m: Seq<char>, windows: Seq<OsWindowModel>)
    requires
        <String as crate::wire::WireWrite>::valid(m),
    ensures
        connection_reply(<Command as crate::wire::WireWrite>::wire(CommandModel::Echo(m)), windows)
            == reply(ResponseModel::Message(m)),
{
    crate::wire::lemma_decode_encode::<Command>(CommandModel::Echo(m));
}

/// Nothing is written back to a connection whose request does not decode.
pub proof fn lemma_malformed_reply(request: Seq<u8>, windows: Seq<OsWindowModel>)
    requires
        <Command as WireRead>::parse(request) is Err,
    ensures
        connection_reply(request, windows) == Seq::<u8>::empty(),
{
}

} // verus!
