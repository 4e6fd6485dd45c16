//! One connection, from its first read to its end, as a state machine.
//!
//! The machine decides; whoever drives it does the waiting. The driver
//! performs the action it is handed, on its sockets and racing the
//! cancellation signal where the action says so, and reports what happened as
//! the next event.

use crate::mc::handshake::handshake_of;
use crate::mc::handshake::Handshake;
use crate::mc::unread;
use crate::mc::DecodeError;
use crate::mem::clear_buffer;
use crate::mem::drop_front;
use crate::mem::written;
use crate::mem::AllocatedBuffer;
use crate::mem::PoolError;
use crate::mem::SmartBufferAllocator;
use crate::proxy::host::SmartHostManager;
use crate::proxy::loadbalancer::Endpoint;
use crate::proxy::loadbalancer::BalancerView;
use crate::proxy::loadbalancer::GuardBalancer;
use crate::proxy::ppv2::build_header;
use crate::proxy::ppv2::header_for;
use crate::proxy::ppv2::header_len_of;
use crate::proxy::ppv2::read_header;
use crate::proxy::ppv2::HeaderError;
use crate::util::CancelResult;
use std::ops::Deref;
use std::ops::DerefMut;
use tokio_util::bytes::Bytes;
use tokio_util::bytes::BytesMut;
use tokio_util::sync::CancellationToken;
use vstd::prelude::*;

verus! {

/// `CancellationToken` of `tokio-util`: the signal that ends all waiting. The
/// processor only carries it for its driver.
#[verifier::external_type_specification]
#[verifier::external_body]
pub struct ExCancellationToken(tokio_util::sync::CancellationToken);

/// `BytesMut::clone` and `BytesMut::freeze`: a read-only copy of what the
/// buffer holds. The buffer itself stays as it is.
#[verifier::external_body]
fn snapshot(buffer: &BytesMut) -> (r: Bytes)
    ensures
        unread(r) == written(*buffer),
{
    buffer.clone().freeze()
}

/// Why a connection was torn down.
#[derive(Clone, Copy, Debug, PartialEq, Eq, Structural)]
pub enum SessionError {
    /// A proxy-protocol header was expected in front of the first frame, and
    /// what stands there is none.
    MalformedHeader(HeaderError),
    /// The first frame is no well-formed handshake.
    MalformedFrame(DecodeError),
    /// The handshake names a host that the routing table does not hold.
    RoutingMiss,
    /// The host is configured without any backend.
    BackendUnavailable,
    /// The chosen backend refused the connection, or did not answer in time.
    DialFailure,
    /// A read or write on one of the sockets failed.
    TransportFailure,
    /// The buffer pool could not serve.
    PoolCorruption(PoolError),
    /// The driver told of something that cannot happen in the present phase.
    OutOfOrder,
    /// The driver gave the connection up before it was over.
    Abandoned,
}

/// Where a connection stands.
#[derive(Clone, Copy, Debug, PartialEq, Eq, Structural)]
pub enum Phase {
    /// The first read from the client is under way.
    AwaitHandshake,
    /// The handshake is decoded and routed, a backend is chosen and dialed.
    Connecting,
    /// The bytes of the handshake are being written to the backend.
    ForwardInitial,
    /// Both directions are being copied.
    Piping,
    /// The backend socket is being shut down; `pending` is the error that
    /// ends the connection once that is done, if there is one already.
    Closing { pending: Option<SessionError> },
    /// Over, without an error.
    Closed,
    /// Over, with an error.
    Aborted(SessionError),
}

impl Phase {
    /// True for the two phases that nothing follows.
    pub open spec fn spec_is_terminal(self) -> bool {
        self is Closed || self is Aborted
    }

    #[verifier::when_used_as_spec(spec_is_terminal)]
    pub fn is_terminal(self) -> (r: bool)
        ensures
            r == self.spec_is_terminal(),
    {
        match self {
            Phase::Closed => true,
            Phase::Aborted(_) => true,
            _ => false,
        }
    }

    /// How a connection that ended in this phase ended.
    pub open spec fn spec_outcome(self) -> Result<(), SessionError> {
        match self {
            Phase::Aborted(e) => Err(e),
            _ => Ok(()),
        }
    }

    /// True in the phases in which the session holds the handshake buffer.
    pub open spec fn holds_buffer(self) -> bool {
        self is AwaitHandshake || self is Connecting || self is ForwardInitial
    }

    /// True in the phases in which the session holds a reservation on the
    /// balancer of its host.
    pub open spec fn holds_reservation(self) -> bool {
        self is Connecting || self is ForwardInitial || self is Piping || self is Closing
    }
}

/// How dialing the backend ended.
#[derive(Clone, Copy, Debug, PartialEq, Eq, Structural)]
pub enum DialOutcome {
    Connected,
    Failed,
    TimedOut,
}

/// What the driver reports.
pub enum Event {
    /// The first read ended: cancelled, failed (`None`), or with this many
    /// bytes appended to the handshake buffer.
    HandshakeRead(CancelResult<Option<usize>>),
    /// Dialing the backend ended.
    Dialed(DialOutcome),
    /// Writing the prefix and the handshake buffer to the backend ended:
    /// cancelled, failed (`false`) or done (`true`).
    Forwarded(CancelResult<bool>),
    /// One direction of the pipe came to its end, or the cancellation signal
    /// fired.
    PipeEnded,
    /// The backend socket was shut down; `false` where that failed.
    BackendShutDown(bool),
    /// The driver gives the connection up, wherever it stands: its task is
    /// being torn down.
    Abandoned,
}

/// What the driver is to do next.
pub enum Action {
    /// Read once from the client into the handshake buffer, racing the
    /// cancellation signal.
    ReadHandshake,
    /// Connect to `backend`, giving up after `timeout_sec` seconds.
    Dial { backend: Endpoint, timeout_sec: u64 },
    /// Write `prefix` and then the handshake buffer to the backend, racing
    /// the cancellation signal.
    ForwardInitial { prefix: Vec<u8> },
    /// Copy both directions at once, racing the cancellation signal, each
    /// with the buffer named for it. The buffers are the driver's from here
    /// on: it gives each back when its direction ends or is abandoned.
    Pipe { client_to_backend: AllocatedBuffer, backend_to_client: AllocatedBuffer },
    /// Shut the backend socket down.
    ShutdownBackend,
    /// Nothing more: the connection is over with this result. The client
    /// socket is the caller's to shut down.
    Finish(Result<(), SessionError>),
}

/// An action as plain values.
pub enum ActionKind {
    ReadHandshake,
    Dial { backend: Endpoint, timeout_sec: u64 },
    ForwardInitial { prefix: Seq<u8> },
    Pipe { client_to_backend: Seq<u8>, backend_to_client: Seq<u8> },
    ShutdownBackend,
    Finish(Result<(), SessionError>),
}

impl View for Action {
    type V = ActionKind;

    open spec fn view(&self) -> ActionKind {
        match *self {
            Action::ReadHandshake => ActionKind::ReadHandshake,
            Action::Dial { backend, timeout_sec } => ActionKind::Dial { backend, timeout_sec },
            Action::ForwardInitial { prefix } => ActionKind::ForwardInitial { prefix: prefix@ },
            Action::Pipe { client_to_backend, backend_to_client } => ActionKind::Pipe {
                client_to_backend: written(client_to_backend.spec_buffer()),
                backend_to_client: written(backend_to_client.spec_buffer()),
            },
            Action::ShutdownBackend => ActionKind::ShutdownBackend,
            Action::Finish(outcome) => ActionKind::Finish(outcome),
        }
    }
}

/// The state of one connection: its phase, the two ends of the client's
/// connection, and what it holds meanwhile.
pub struct Session<'a> {
    phase: Phase,
    client: Endpoint,
    local: Endpoint,
    reservation: Option<GuardBalancer<'a>>,
    handshake: Option<AllocatedBuffer>,
}

/// A session as plain values.
pub struct SessionView {
    pub phase: Phase,
    /// Where the client's connection comes from.
    pub client: Endpoint,
    /// Where the client's connection arrived.
    pub local: Endpoint,
    /// The balancer that a reservation is held on, if one is held.
    pub reserved: Option<BalancerView>,
    /// The bytes in the handshake buffer, where the session holds it.
    pub buffered: Option<Seq<u8>>,
}

impl<'a> View for Session<'a> {
    type V = SessionView;

    closed spec fn view(&self) -> SessionView {
        SessionView {
            phase: self.phase,
            client: self.client,
            local: self.local,
            reserved: match self.reservation {
                Some(guard) => Some(guard.spec_balancer()@),
                None => None,
            },
            buffered: match self.handshake {
                Some(buffer) => Some(written(buffer.spec_buffer())),
                None => None,
            },
        }
    }
}

impl SessionView {
    /// A session holds exactly what its phase calls for: the handshake buffer
    /// until both directions are piped, the reservation from routing to the
    /// shutdown of the backend socket, and nothing once it is over.
    pub open spec fn wf(self) -> bool {
        &&& self.reserved is Some == self.phase.holds_reservation()
        &&& self.buffered is Some == self.phase.holds_buffer()
    }

    /// The same connection in another phase and with nothing held.
    pub open spec fn emptied(self, phase: Phase) -> SessionView {
        SessionView { phase, reserved: None, buffered: None, ..self }
    }
}

impl<'a> Session<'a> {
    #[verifier::type_invariant]
    spec fn holds_what_its_phase_needs(self) -> bool {
        self@.wf()
    }

    /// A session that is over and holds nothing.
    fn over(phase: Phase, client: Endpoint, local: Endpoint) -> (r: Self)
        requires
            phase.spec_is_terminal(),
        ensures
            r@ == (SessionView { phase, client, local, reserved: None, buffered: None }),
    {
        Session { phase, client, local, reservation: None, handshake: None }
    }

    /// The phase the connection is in.
    pub fn phase(&self) -> (r: Phase)
        ensures
            r == self@.phase,
            self@.wf(),
    {
        proof {
            use_type_invariant(self);
        }
        self.phase
    }

    /// The handshake buffer, for the driver to read into and write from. The
    /// session holds it until both directions are piped or the connection is
    /// over.
    pub fn handshake_buffer(&mut self) -> (r: Option<&mut BytesMut>)
        ensures
            r is Some == old(self)@.buffered is Some,
            r matches Some(buffer) ==> {
                &&& Some(written(*buffer)) == old(self)@.buffered
                &&& final(self)@ == (SessionView {
                    buffered: Some(written(*final(buffer))),
                    ..old(self)@
                })
            },
            r is None ==> final(self)@ == old(self)@,
    {
        proof {
            use_type_invariant(&*self);
        }
        buffer_in(&mut self.handshake)
    }
}

/// The buffer behind a handle that may be there or not.
fn buffer_in(slot: &mut Option<AllocatedBuffer>) -> (r: Option<&mut BytesMut>)
    ensures
        r is Some == (*old(slot)) is Some,
        (*final(slot)) is Some == (*old(slot)) is Some,
        r matches Some(buffer) ==> {
            &&& *buffer == (*old(slot))->Some_0.spec_buffer()
            &&& (*final(slot))->Some_0.spec_buffer() == *final(buffer)
        },
        r is None ==> *final(slot) == *old(slot),
    no_unwind
{
    match slot {
        Some(handle) => Some(handle.held_mut()),
        None => None,
    }
}

/// Where the handshake starts among the first bytes of a connection: behind
/// the proxy-protocol header where one is expected, at the front otherwise.
pub open spec fn handshake_start(receive_ppv2: bool, first: Seq<u8>) -> Result<nat, HeaderError> {
    if receive_ppv2 {
        header_len_of(first)
    } else {
        Ok(0)
    }
}

/// What routing makes of the first bytes of a connection: the balancer of the
/// host that the handshake names, or the reason why the connection goes no
/// further.
pub open spec fn routing_of(receive_ppv2: bool, first: Seq<u8>, table: SmartHostManager)
    -> Result<BalancerView, SessionError> {
    match handshake_start(receive_ppv2, first) {
        Err(e) => Err(SessionError::MalformedHeader(e)),
        Ok(start) => match handshake_of(first.skip(start as int)) {
            Err(e) => Err(SessionError::MalformedFrame(e)),
            Ok(handshake) => match table.spec_get(handshake.server_address) {
                None => Err(SessionError::RoutingMiss),
                Some(balancer) => if balancer.backends.len() == 0 {
                    Err(SessionError::BackendUnavailable)
                } else {
                    Ok(balancer)
                },
            },
        },
    }
}

/// The bytes of the first read that go on to the backend: all of them, but
/// for a proxy-protocol header that came in and that the backend does not
/// expect.
pub open spec fn kept_bytes(receive_ppv2: bool, ppv2: bool, first: Seq<u8>) -> Seq<u8> {
    if receive_ppv2 && !ppv2 {
        first.skip(handshake_start(receive_ppv2, first)->Ok_0 as int)
    } else {
        first
    }
}

/// The bytes that go to the backend before anything the client sent: a
/// proxy-protocol header that tells of the client's connection, where the
/// backend expects one and the client brought none.
pub open spec fn forward_prefix(receive_ppv2: bool, ppv2: bool, client: Endpoint, local: Endpoint)
    -> Seq<u8> {
    if ppv2 && !receive_ppv2 {
        header_for(client, local)
    } else {
        Seq::<u8>::empty()
    }
}

/// True when `after` and `action` are a session that ended in `phase`: it
/// holds nothing any more. Giving the handshake buffer back can fail on a
/// broken pool; the connection then ends with that error instead.
pub open spec fn finishes(before: SessionView, after: SessionView, action: ActionKind, phase: Phase)
    -> bool {
    let broken = Phase::Aborted(SessionError::PoolCorruption(PoolError::LockPoisoned));
    &&& after == before.emptied(phase) || after == before.emptied(broken)
    &&& action == ActionKind::Finish(after.phase.spec_outcome())
}

/// True when `after` and `action` are a session that gave its handshake
/// buffer back and now shuts the backend socket down.
pub open spec fn closes(
    before: SessionView,
    after: SessionView,
    action: ActionKind,
    pending: Option<SessionError>,
) -> bool {
    let broken = Some(SessionError::PoolCorruption(PoolError::LockPoisoned));
    let closing = SessionView { phase: Phase::Closing { pending }, buffered: None, ..before };
    let closing_broken = SessionView {
        phase: Phase::Closing { pending: broken },
        buffered: None,
        ..before
    };
    &&& after == closing || (before.buffered is Some && after == closing_broken)
    &&& action == ActionKind::ShutdownBackend
}

/// True when `after` and `action` are what the end of the first read leads
/// to.
pub open spec fn after_handshake_read(
    table: SmartHostManager,
    receive_ppv2: bool,
    timeout_sec: u64,
    before: SessionView,
    read: CancelResult<Option<usize>>,
    after: SessionView,
    action: ActionKind,
) -> bool {
    match read {
        CancelResult::Cancelled => finishes(before, after, action, Phase::Closed),
        CancelResult::Success(None) => finishes(
            before,
            after,
            action,
            Phase::Aborted(SessionError::TransportFailure),
        ),
        CancelResult::Success(Some(count)) => if count == 0 {
            finishes(before, after, action, Phase::Closed)
        } else {
            let first = before.buffered->Some_0;
            match routing_of(receive_ppv2, first, table) {
                Err(e) => finishes(before, after, action, Phase::Aborted(e)),
                Ok(balancer) => {
                    &&& after == (SessionView {
                        phase: Phase::Connecting,
                        reserved: Some(balancer),
                        buffered: Some(kept_bytes(receive_ppv2, balancer.ppv2, first)),
                        ..before
                    })
                    &&& action matches ActionKind::Dial { backend, timeout_sec: limit }
                    &&& limit == timeout_sec
                    &&& balancer.backends.contains(backend)
                },
            }
        },
    }
}

/// True when `after` and `action` are what a dial outcome leads to.
pub open spec fn after_dial(
    receive_ppv2: bool,
    before: SessionView,
    outcome: DialOutcome,
    after: SessionView,
    action: ActionKind,
) -> bool {
    match outcome {
        DialOutcome::Connected => {
            &&& after == (SessionView { phase: Phase::ForwardInitial, ..before })
            &&& action == (ActionKind::ForwardInitial {
                prefix: forward_prefix(
                    receive_ppv2,
                    before.reserved->Some_0.ppv2,
                    before.client,
                    before.local,
                ),
            })
        },
        _ => finishes(before, after, action, Phase::Aborted(SessionError::DialFailure)),
    }
}

/// True when `after` and `action` are what the end of the first write leads
/// to.
pub open spec fn after_forward(
    before: SessionView,
    written_out: CancelResult<bool>,
    after: SessionView,
    action: ActionKind,
) -> bool {
    match written_out {
        CancelResult::Cancelled => closes(before, after, action, None),
        CancelResult::Success(false) => closes(
            before,
            after,
            action,
            Some(SessionError::TransportFailure),
        ),
        CancelResult::Success(true) => {
            ||| {
                &&& after == (SessionView { phase: Phase::Piping, buffered: None, ..before })
                &&& action matches ActionKind::Pipe { client_to_backend, backend_to_client }
                &&& Some(client_to_backend) == before.buffered
                &&& backend_to_client == Seq::<u8>::empty()
            }
            ||| closes(
                before,
                after,
                action,
                Some(SessionError::PoolCorruption(PoolError::LockPoisoned)),
            )
            ||| closes(
                before,
                after,
                action,
                Some(SessionError::PoolCorruption(PoolError::Exhausted)),
            )
        },
    }
}

/// True when `after` and `action` are what the shutdown of the backend
/// socket leads to: the pending error if there is one, else the error of the
/// shutdown itself if it failed, else a clean end.
pub open spec fn after_shutdown(
    before: SessionView,
    pending: Option<SessionError>,
    done: bool,
    after: SessionView,
    action: ActionKind,
) -> bool {
    match pending {
        Some(e) => finishes(before, after, action, Phase::Aborted(e)),
        None => if done {
            finishes(before, after, action, Phase::Closed)
        } else {
            finishes(before, after, action, Phase::Aborted(SessionError::TransportFailure))
        },
    }
}

/// The transition relation of a connection: true when a session that stood
/// at `before` and was told `event` may stand at `after` and answer `action`.
///
/// The relation leaves open only what the machine cannot know beforehand:
/// which backend the shared cursor selects, and whether the pool serves.
pub open spec fn steps(
    table: SmartHostManager,
    receive_ppv2: bool,
    timeout_sec: u64,
    before: SessionView,
    event: Event,
    after: SessionView,
    action: ActionKind,
) -> bool {
    match (before.phase, event) {
        (Phase::Closed, _) => after == before && action == ActionKind::Finish(Ok(())),
        (Phase::Aborted(e), _) => after == before && action == ActionKind::Finish(Err(e)),
        (_, Event::Abandoned) => finishes(
            before,
            after,
            action,
            Phase::Aborted(SessionError::Abandoned),
        ),
        (Phase::AwaitHandshake, Event::HandshakeRead(read)) => after_handshake_read(
            table,
            receive_ppv2,
            timeout_sec,
            before,
            read,
            after,
            action,
        ),
        (Phase::Connecting, Event::Dialed(outcome)) => after_dial(
            receive_ppv2,
            before,
            outcome,
            after,
            action,
        ),
        (Phase::ForwardInitial, Event::Forwarded(written_out)) => after_forward(
            before,
            written_out,
            after,
            action,
        ),
        (Phase::Piping, Event::PipeEnded) => closes(before, after, action, None),
        (Phase::Closing { pending }, Event::BackendShutDown(done)) => after_shutdown(
            before,
            pending,
            done,
            after,
            action,
        ),
        _ => finishes(before, after, action, Phase::Aborted(SessionError::OutOfOrder)),
    }
}

/// What every connection of one proxy shares.
pub struct ProxyProcessor {
    receive_ppv2: bool,
    timeout_sec: u64,
    cancel: CancellationToken,
    host_manager: SmartHostManager,
    buffer_allocator: SmartBufferAllocator,
}

impl ProxyProcessor {
    /// The routing table that connections are routed by.
    pub closed spec fn spec_host_manager(&self) -> SmartHostManager {
        self.host_manager
    }

    /// The number of seconds after which dialing a backend is given up.
    pub closed spec fn spec_timeout_sec(&self) -> u64 {
        self.timeout_sec
    }

    /// Whether clients are expected to send a proxy-protocol header first.
    pub closed spec fn spec_receive_ppv2(&self) -> bool {
        self.receive_ppv2
    }

    /// The cancellation signal of the proxy.
    pub closed spec fn spec_cancel(&self) -> CancellationToken {
        self.cancel
    }

    /// A processor for the connections of one proxy.
    pub fn new(
        receive_ppv2: bool,
        timeout_sec: u64,
        cancel: CancellationToken,
        host_manager: SmartHostManager,
        buffer_allocator: SmartBufferAllocator,
    ) -> (r: Self)
        ensures
            r.spec_receive_ppv2() == receive_ppv2,
            r.spec_timeout_sec() == timeout_sec,
            r.spec_cancel() == cancel,
            r.spec_host_manager() == host_manager,
    {
        ProxyProcessor { receive_ppv2, timeout_sec, cancel, host_manager, buffer_allocator }
    }

    /// Whether clients are expected to send a proxy-protocol header first.
    pub fn receive_ppv2(&self) -> (r: bool)
        ensures
            r == self.spec_receive_ppv2(),
    {
        self.receive_ppv2
    }

    /// The cancellation signal that the driver races its waits against.
    pub fn cancel(&self) -> (r: &CancellationToken)
        ensures
            *r == self.spec_cancel(),
    {
        &self.cancel
    }

    /// Starts the connection that came from `client` and arrived at `local`:
    /// borrows the handshake buffer and asks for the first read. On a pool
    /// that cannot serve the connection is over at once.
    pub fn begin<'a>(&'a self, client: Endpoint, local: Endpoint) -> (r: (Session<'a>, Action))
        ensures
            r.0@.wf(),
            match r.1@ {
                ActionKind::ReadHandshake => r.0@ == (SessionView {
                    phase: Phase::AwaitHandshake,
                    client,
                    local,
                    reserved: None,
                    buffered: Some(Seq::<u8>::empty()),
                }),
                ActionKind::Finish(outcome) => {
                    &&& outcome matches Err(SessionError::PoolCorruption(_))
                    &&& r.0@ == (SessionView {
                        phase: Phase::Aborted(outcome->Err_0),
                        client,
                        local,
                        reserved: None,
                        buffered: None,
                    })
                },
                _ => false,
            },
    {
        match self.buffer_allocator.allocate() {
            Ok(buffer) => (
                Session {
                    phase: Phase::AwaitHandshake,
                    client,
                    local,
                    reservation: None,
                    handshake: Some(buffer),
                },
                Action::ReadHandshake,
            ),
            Err(e) => {
                let error = SessionError::PoolCorruption(e);
                (Session::over(Phase::Aborted(error), client, local), Action::Finish(Err(error)))
            },
        }
    }

    /// Decodes the first bytes of a connection, looks the host up and selects
    /// a backend.
    ///
    /// Fails as `routing_of` says. On success the reservation on the host's
    /// balancer is handed out together with the backend, which is one of that
    /// balancer's, and with the place where the handshake starts. A
    /// reservation that was made for a host without backends is given up
    /// before the failure is returned.
    pub fn route<'a>(&'a self, first: Bytes) -> (r: Result<
        (GuardBalancer<'a>, Endpoint, usize),
        SessionError,
    >)
        ensures
            match r {
                Ok((guard, backend, start)) => {
                    &&& routing_of(
                        self.spec_receive_ppv2(),
                        unread(first),
                        self.spec_host_manager(),
                    ) == Ok::<BalancerView, SessionError>(guard.spec_balancer()@)
                    &&& guard.spec_balancer()@.backends.contains(backend)
                    &&& handshake_start(self.spec_receive_ppv2(), unread(first)) == Ok::<
                        nat,
                        HeaderError,
                    >(start as nat)
                    &&& start <= unread(first).len()
                },
                Err(e) => routing_of(
                    self.spec_receive_ppv2(),
                    unread(first),
                    self.spec_host_manager(),
                ) == Err::<BalancerView, SessionError>(e),
            },
    {
        let mut frame = first;
        let mut start: usize = 0;
        if self.receive_ppv2 {
            match read_header(&mut frame) {
                Ok(len) => {
                    start = len;
                },
                Err(e) => {
                    return Err(SessionError::MalformedHeader(e));
                },
            }
        } else {
            assert(unread(frame).skip(0) == unread(frame));
        }
        let handshake = match Handshake::parse_handshake(frame) {
            Ok(handshake) => handshake,
            Err(e) => {
                return Err(SessionError::MalformedFrame(e));
            },
        };
        let guard = match self.host_manager.get_host(handshake.server_address.as_str()) {
            Some(guard) => guard,
            None => {
                return Err(SessionError::RoutingMiss);
            },
        };
        let selected = match guard.deref().take() {
            Some(backend) => Some(*backend),
            None => None,
        };
        match selected {
            Some(backend) => {
                proof {
                    let cursor = choose|cursor: usize|
                        guard.spec_balancer().spec_backend_at(cursor) == Some(backend);
                    vstd::arithmetic::div_mod::lemma_mod_bound(
                        cursor as int,
                        guard.spec_balancer()@.backends.len() as int,
                    );
                }
                Ok((guard, backend, start))
            },
            None => {
                guard.release();
                Err(SessionError::BackendUnavailable)
            },
        }
    }

    /// Ends a session in `phase`: gives up the reservation and gives the
    /// handshake buffer back, whichever of them the session holds.
    fn finish<'a>(&'a self, held: Session<'a>, phase: Phase) -> (r: (Session<'a>, Action))
        requires
            phase.spec_is_terminal(),
        ensures
            finishes(held@, r.0@, r.1@, phase),
    {
        let Session { phase: _, client, local, reservation, handshake } = held;
        if let Some(guard) = reservation {
            guard.release();
        }
        let mut phase = phase;
        if let Some(buffer) = handshake {
            if let Err(e) = buffer.release() {
                phase = Phase::Aborted(SessionError::PoolCorruption(e));
            }
        }
        let outcome = match phase {
            Phase::Aborted(e) => Err(e),
            _ => Ok(()),
        };
        (Session::over(phase, client, local), Action::Finish(outcome))
    }

    /// Moves a session on to the shutdown of the backend socket: gives the
    /// handshake buffer back if the session still holds it.
    fn close<'a>(&'a self, held: Session<'a>, pending: Option<SessionError>) -> (r: (
        Session<'a>,
        Action,
    ))
        requires
            held@.reserved is Some,
        ensures
            closes(held@, r.0@, r.1@, pending),
    {
        let Session { phase: _, client, local, reservation, handshake } = held;
        let mut pending = pending;
        if let Some(buffer) = handshake {
            if let Err(e) = buffer.release() {
                pending = Some(SessionError::PoolCorruption(e));
            }
        }
        (
            Session {
                phase: Phase::Closing { pending },
                client,
                local,
                reservation,
                handshake: None,
            },
            Action::ShutdownBackend,
        )
    }

    /// The step after the first read brought bytes: decodes and routes them,
    /// and keeps of them what goes on to the backend.
    fn connect<'a>(&'a self, held: Session<'a>) -> (r: (Session<'a>, Action))
        requires
            held@.phase == Phase::AwaitHandshake,
        ensures
            after_handshake_read(
                self.spec_host_manager(),
                self.spec_receive_ppv2(),
                self.spec_timeout_sec(),
                held@,
                CancelResult::Success(Some(1usize)),
                r.0@,
                r.1@,
            ),
    {
        proof {
            use_type_invariant(&held);
        }
        let Session { phase, client, local, reservation, handshake } = held;
        let mut buffer = match handshake {
            Some(buffer) => buffer,
            None => {
                return (
                    Session::over(Phase::Aborted(SessionError::OutOfOrder), client, local),
                    Action::Finish(Err(SessionError::OutOfOrder)),
                );
            },
        };
        match self.route(snapshot(buffer.deref())) {
            Ok((guard, backend, start)) => {
                if self.receive_ppv2 && !guard.deref().is_ppv2() {
                    drop_front(buffer.deref_mut(), start);
                }
                (
                    Session {
                        phase: Phase::Connecting,
                        client,
                        local,
                        reservation: Some(guard),
                        handshake: Some(buffer),
                    },
                    Action::Dial { backend, timeout_sec: self.timeout_sec },
                )
            },
            Err(e) => self.finish(
                Session { phase, client, local, reservation, handshake: Some(buffer) },
                Phase::Aborted(e),
            ),
        }
    }

    /// The step itself, on a session that is handed over and handed back.
    fn advance<'a>(&'a self, held: Session<'a>, event: Event) -> (r: (Session<'a>, Action))
        ensures
            steps(
                self.spec_host_manager(),
                self.spec_receive_ppv2(),
                self.spec_timeout_sec(),
                held@,
                event,
                r.0@,
                r.1@,
            ),
    {
        proof {
            use_type_invariant(&held);
        }
        match (held.phase, event) {
            (Phase::Closed, _) => (held, Action::Finish(Ok(()))),
            (Phase::Aborted(e), _) => (held, Action::Finish(Err(e))),
            (_, Event::Abandoned) => self.finish(held, Phase::Aborted(SessionError::Abandoned)),
            (Phase::AwaitHandshake, Event::HandshakeRead(read)) => {
                match read {
                    CancelResult::Cancelled => self.finish(held, Phase::Closed),
                    CancelResult::Success(None) => self.finish(
                        held,
                        Phase::Aborted(SessionError::TransportFailure),
                    ),
                    CancelResult::Success(Some(count)) => if count == 0 {
                        self.finish(held, Phase::Closed)
                    } else {
                        self.connect(held)
                    },
                }
            },
            (Phase::Connecting, Event::Dialed(outcome)) => {
                match outcome {
                    DialOutcome::Connected => {
                        let Session { phase: _, client, local, reservation, handshake } = held;
                        let expected = match &reservation {
                            Some(guard) => guard.deref().is_ppv2(),
                            None => false,
                        };
                        let prefix = if expected && !self.receive_ppv2 {
                            build_header(client, local)
                        } else {
                            Vec::new()
                        };
                        (
                            Session {
                                phase: Phase::ForwardInitial,
                                client,
                                local,
                                reservation,
                                handshake,
                            },
                            Action::ForwardInitial { prefix },
                        )
                    },
                    _ => self.finish(held, Phase::Aborted(SessionError::DialFailure)),
                }
            },
            (Phase::ForwardInitial, Event::Forwarded(written_out)) => {
                match written_out {
                    CancelResult::Cancelled => self.close(held, None),
                    CancelResult::Success(false) => self.close(
                        held,
                        Some(SessionError::TransportFailure),
                    ),
                    CancelResult::Success(true) => {
                        let backend_to_client = match self.buffer_allocator.allocate() {
                            Ok(buffer) => buffer,
                            Err(e) => {
                                return self.close(held, Some(SessionError::PoolCorruption(e)));
                            },
                        };
                        let Session { phase: _, client, local, reservation, handshake } = held;
                        match handshake {
                            Some(client_to_backend) => (
                                Session {
                                    phase: Phase::Piping,
                                    client,
                                    local,
                                    reservation,
                                    handshake: None,
                                },
                                Action::Pipe { client_to_backend, backend_to_client },
                            ),
                            None => {
                                let _ = backend_to_client.release();
                                (
                                    Session {
                                        phase: Phase::Closing {
                                            pending: Some(SessionError::OutOfOrder),
                                        },
                                        client,
                                        local,
                                        reservation,
                                        handshake: None,
                                    },
                                    Action::ShutdownBackend,
                                )
                            },
                        }
                    },
                }
            },
            (Phase::Piping, Event::PipeEnded) => self.close(held, None),
            (Phase::Closing { pending }, Event::BackendShutDown(done)) => {
                match pending {
                    Some(e) => self.finish(held, Phase::Aborted(e)),
                    None => if done {
                        self.finish(held, Phase::Closed)
                    } else {
                        self.finish(held, Phase::Aborted(SessionError::TransportFailure))
                    },
                }
            },
            _ => self.finish(held, Phase::Aborted(SessionError::OutOfOrder)),
        }
    }

    /// Takes the session one step on: from the phase it is in and what the
    /// driver reports to the next phase and the next thing to do.
    ///
    /// - After the first read: a cancelled or empty read ends the connection
    ///   cleanly, a failed one with an error. Otherwise the bytes read so far
    ///   are decoded and routed (`route`), and the chosen backend is dialed.
    ///   A proxy-protocol header that came in stays in the buffer only for a
    ///   backend that expects one.
    /// - After dialing: the handshake is forwarded, behind a proxy-protocol
    ///   header of the proxy's own where the backend expects one and the
    ///   client brought none; or the connection ends.
    /// - After forwarding: both directions are piped, each with a buffer of
    ///   its own; a cancelled or failed write shuts the backend socket down.
    /// - After piping: the backend socket is shut down.
    /// - After that shutdown: the connection is over.
    ///
    /// A session that is over stays as it is. A connection that the driver
    /// gives up is over at once. A report that does not fit the phase ends
    /// the connection.
    pub fn step<'a>(&'a self, session: &mut Session<'a>, event: Event) -> (action: Action)
        ensures
            steps(
                self.spec_host_manager(),
                self.spec_receive_ppv2(),
                self.spec_timeout_sec(),
                old(session)@,
                event,
                final(session)@,
                action@,
            ),
            old(session)@.wf(),
            final(session)@.wf(),
    {
        proof {
            use_type_invariant(&*session);
        }
        let mut held = Session::over(Phase::Closed, session.client, session.local);
        core::mem::swap(session, &mut held);
        let (next, action) = self.advance(held, event);
        proof {
            use_type_invariant(&next);
        }
        *session = next;
        action
    }
}

// ---------------------------------------------------------------------------
// One direction of the pipe
// ---------------------------------------------------------------------------

/// Where one direction of the pipe stands.
#[derive(Clone, Copy, Debug, PartialEq, Eq)]
pub enum CopyPhase {
    /// A read from the source into the buffer is under way.
    Reading,
    /// The buffer, with `count` bytes newly read, is being written out whole.
    Writing { count: usize },
    /// The source is at its end; the destination is being flushed.
    Flushing,
    /// Over, with the number of bytes copied or with an error.
    Done(Result<usize, SessionError>),
}

/// One direction of the pipe: its phase and the bytes it has copied so far.
#[derive(Clone, Copy, Debug, PartialEq, Eq)]
pub struct CopyLoop {
    pub phase: CopyPhase,
    pub total_bytes: usize,
}

/// What the driver of one direction reports.
#[derive(Clone, Copy, Debug, PartialEq, Eq, Structural)]
pub enum CopyEvent {
    /// The read ended: failed (`None`), or with this many bytes appended to
    /// the buffer; zero bytes mean the source is at its end.
    Read(Option<usize>),
    /// The write of the whole buffer ended; `false` where it failed.
    Written(bool),
    /// The flush ended; `false` where it failed.
    Flushed(bool),
}

/// What the driver of one direction is to do next.
#[derive(Clone, Copy, Debug, PartialEq, Eq)]
pub enum CopyAction {
    /// Read from the source into the buffer.
    Read,
    /// Write the whole buffer to the destination.
    WriteAll,
    /// Flush the destination.
    Flush,
    /// Nothing more: the direction is over with this result.
    Finish(Result<usize, SessionError>),
}

/// The byte count after `count` more bytes, which stops at the largest
/// `usize`.
pub open spec fn counted(total: usize, count: usize) -> usize {
    if total + count > usize::MAX {
        usize::MAX
    } else {
        (total + count) as usize
    }
}

/// The transitions of one direction: the state that follows, and what to do.
///
/// Read; at the end of the source flush and finish with the count; else write
/// the whole buffer, count what was read, and read again. Any failure ends
/// the direction with a transport error. A direction that is over stays over;
/// a report that does not fit the phase ends it.
pub open spec fn copy_step(state: CopyLoop, event: CopyEvent) -> (CopyLoop, CopyAction) {
    let failed = Err::<usize, SessionError>(SessionError::TransportFailure);
    let confused = Err::<usize, SessionError>(SessionError::OutOfOrder);
    match (state.phase, event) {
        (CopyPhase::Reading, CopyEvent::Read(None)) => (
            CopyLoop { phase: CopyPhase::Done(failed), ..state },
            CopyAction::Finish(failed),
        ),
        (CopyPhase::Reading, CopyEvent::Read(Some(count))) => if count == 0 {
            (CopyLoop { phase: CopyPhase::Flushing, ..state }, CopyAction::Flush)
        } else {
            (CopyLoop { phase: CopyPhase::Writing { count }, ..state }, CopyAction::WriteAll)
        },
        (CopyPhase::Writing { count }, CopyEvent::Written(done)) => if done {
            (
                CopyLoop {
                    phase: CopyPhase::Reading,
                    total_bytes: counted(state.total_bytes, count),
                },
                CopyAction::Read,
            )
        } else {
            (CopyLoop { phase: CopyPhase::Done(failed), ..state }, CopyAction::Finish(failed))
        },
        (CopyPhase::Flushing, CopyEvent::Flushed(done)) => if done {
            (
                CopyLoop { phase: CopyPhase::Done(Ok(state.total_bytes)), ..state },
                CopyAction::Finish(Ok(state.total_bytes)),
            )
        } else {
            (CopyLoop { phase: CopyPhase::Done(failed), ..state }, CopyAction::Finish(failed))
        },
        (CopyPhase::Done(outcome), _) => (state, CopyAction::Finish(outcome)),
        _ => (CopyLoop { phase: CopyPhase::Done(confused), ..state }, CopyAction::Finish(confused)),
    }
}

/// True when a step empties the buffer: a whole write went through.
pub open spec fn copy_clears(state: CopyLoop, event: CopyEvent) -> bool {
    state.phase is Writing && event == CopyEvent::Written(true)
}

impl CopyLoop {
    /// A direction that has copied nothing yet, and its first action: read.
    pub fn new() -> (r: (Self, CopyAction))
        ensures
            r.0 == (CopyLoop { phase: CopyPhase::Reading, total_bytes: 0 }),
            r.1 == CopyAction::Read,
    {
        (CopyLoop { phase: CopyPhase::Reading, total_bytes: 0 }, CopyAction::Read)
    }

    /// Takes the direction one step on (`copy_step`). The buffer is emptied
    /// behind every whole write and left alone otherwise.
    pub fn step(&mut self, buffer: &mut BytesMut, event: CopyEvent) -> (action: CopyAction)
        ensures
            (*final(self), action) == copy_step(*old(self), event),
            written(*final(buffer)) == if copy_clears(*old(self), event) {
                Seq::<u8>::empty()
            } else {
                written(*old(buffer))
            },
    {
        let failed: Result<usize, SessionError> = Err(SessionError::TransportFailure);
        match (self.phase, event) {
            (CopyPhase::Reading, CopyEvent::Read(None)) => {
                self.phase = CopyPhase::Done(failed);
                CopyAction::Finish(failed)
            },
            (CopyPhase::Reading, CopyEvent::Read(Some(count))) => {
                if count == 0 {
                    self.phase = CopyPhase::Flushing;
                    CopyAction::Flush
                } else {
                    self.phase = CopyPhase::Writing { count };
                    CopyAction::WriteAll
                }
            },
            (CopyPhase::Writing { count }, CopyEvent::Written(done)) => {
                if done {
                    self.total_bytes = self.total_bytes.saturating_add(count);
                    self.phase = CopyPhase::Reading;
                    clear_buffer(buffer);
                    CopyAction::Read
                } else {
                    self.phase = CopyPhase::Done(failed);
                    CopyAction::Finish(failed)
                }
            },
            (CopyPhase::Flushing, CopyEvent::Flushed(done)) => {
                let outcome = if done {
                    Ok(self.total_bytes)
                } else {
                    failed
                };
                self.phase = CopyPhase::Done(outcome);
                CopyAction::Finish(outcome)
            },
            (CopyPhase::Done(outcome), _) => CopyAction::Finish(outcome),
            _ => {
                let confused: Result<usize, SessionError> = Err(SessionError::OutOfOrder);
                self.phase = CopyPhase::Done(confused);
                CopyAction::Finish(confused)
            },
        }
    }
}

// ---------------------------------------------------------------------------
// What holds of every connection
// ---------------------------------------------------------------------------

/// How far a phase is along the way of a connection.
pub open spec fn progress(phase: Phase) -> nat {
    match phase {
        Phase::AwaitHandshake => 0,
        Phase::Connecting => 1,
        Phase::ForwardInitial => 2,
        Phase::Piping => 3,
        Phase::Closing { .. } => 4,
        Phase::Closed => 5,
        Phase::Aborted(_) => 5,
    }
}

/// The phases of one connection follow each other in one order: a step never
/// leads back, and until the connection is over every step leads on.
pub proof fn lemma_phases_are_sequential(
    table: SmartHostManager,
    receive_ppv2: bool,
    timeout_sec: u64,
    before: SessionView,
    event: Event,
    after: SessionView,
    action: ActionKind,
)
    requires
        steps(table, receive_ppv2, timeout_sec, before, event, after, action),
    ensures
        progress(after.phase) >= progress(before.phase),
        !before.phase.spec_is_terminal() ==> progress(after.phase) > progress(before.phase),
        before.phase.spec_is_terminal() ==> after == before,
{
}

/// A connection that is over holds nothing: no reservation and no pooled
/// buffer. This holds whichever way it ended: cleanly, by an error, or
/// because the cancellation signal won a race.
pub proof fn lemma_nothing_is_held_at_the_end(
    table: SmartHostManager,
    receive_ppv2: bool,
    timeout_sec: u64,
    before: SessionView,
    event: Event,
    after: SessionView,
    action: ActionKind,
)
    requires
        before.wf(),
        steps(table, receive_ppv2, timeout_sec, before, event, after, action),
    ensures
        after.wf(),
        after.phase.spec_is_terminal() ==> after.reserved is None && after.buffered is None,
        after.phase.spec_is_terminal() <==> action is Finish,
        action matches ActionKind::Finish(outcome) ==> outcome == after.phase.spec_outcome(),
{
}

/// A handshake that names no configured host is never dialed: the connection
/// ends on the spot with the reason, and so does one whose first frame does
/// not decode, and one whose host has no backend.
pub proof fn lemma_unrouted_is_never_dialed(
    table: SmartHostManager,
    receive_ppv2: bool,
    timeout_sec: u64,
    before: SessionView,
    count: usize,
    after: SessionView,
    action: ActionKind,
)
    requires
        before.wf(),
        before.phase == Phase::AwaitHandshake,
        count > 0,
        routing_of(receive_ppv2, before.buffered->Some_0, table) is Err,
        steps(
            table,
            receive_ppv2,
            timeout_sec,
            before,
            Event::HandshakeRead(CancelResult::Success(Some(count))),
            after,
            action,
        ),
    ensures
        action is Finish,
        !(action is Dial),
        after.phase is Aborted,
{
}

/// Where no proxy-protocol header is in play, the backend gets first exactly
/// what the client sent first: decoding and routing leave the buffer alone,
/// nothing is written in front of it, and the buffer that the
/// client-to-backend direction starts with holds what the session held.
pub proof fn lemma_handshake_bytes_are_kept(
    table: SmartHostManager,
    timeout_sec: u64,
    before: SessionView,
    event: Event,
    after: SessionView,
    action: ActionKind,
)
    requires
        before.wf(),
        before.reserved matches Some(balancer) ==> !balancer.ppv2,
        after.reserved matches Some(balancer) ==> !balancer.ppv2,
        steps(table, false, timeout_sec, before, event, after, action),
    ensures
        after.buffered is Some ==> after.buffered == before.buffered,
        action matches ActionKind::ForwardInitial { prefix } ==> prefix.len() == 0,
        action matches ActionKind::Pipe { client_to_backend, backend_to_client } ==> Some(
            client_to_backend,
        ) == before.buffered && backend_to_client.len() == 0,
{
}

/// What reaches a backend that expects a proxy-protocol header starts with
/// one: the header the client brought, or else one that tells of the client's
/// connection. A backend that expects none gets none: a header the client
/// brought is cut off before the handshake is forwarded.
pub proof fn lemma_backend_gets_the_header_it_expects(
    receive_ppv2: bool,
    ppv2: bool,
    client: Endpoint,
    local: Endpoint,
    first: Seq<u8>,
)
    requires
        handshake_start(receive_ppv2, first) is Ok,
    ensures
        ({
            let start = handshake_start(receive_ppv2, first)->Ok_0;
            let sent = forward_prefix(receive_ppv2, ppv2, client, local) + kept_bytes(
                receive_ppv2,
                ppv2,
                first,
            );
            let handshake = first.skip(start as int);
            &&& ppv2 ==> header_len_of(sent) is Ok && sent.skip(header_len_of(sent)->Ok_0 as int)
                == handshake
            &&& !ppv2 ==> sent == handshake
        }),
{
    let start = handshake_start(receive_ppv2, first)->Ok_0;
    if ppv2 && !receive_ppv2 {
        crate::proxy::ppv2::lemma_built_header_is_read_back(client, local, first);
        assert(first.skip(0) == first);
    } else if !ppv2 && !receive_ppv2 {
        assert(first.skip(0) == first);
        assert(Seq::<u8>::empty() + first == first);
    } else {
        assert(Seq::<u8>::empty() + kept_bytes(receive_ppv2, ppv2, first) == kept_bytes(
            receive_ppv2,
            ppv2,
            first,
        ));
    }
}

/// The count of a direction adds up what was read: a read of `count` bytes
/// followed by a whole write adds `count`, up to the largest `usize`.
pub proof fn lemma_copy_counts_what_it_wrote(state: CopyLoop, count: usize)
    requires
        state.phase == CopyPhase::Reading,
        count > 0,
    ensures
        ({
            let read = copy_step(state, CopyEvent::Read(Some(count)));
            let wrote = copy_step(read.0, CopyEvent::Written(true));
            &&& read.1 == CopyAction::WriteAll
            &&& wrote.1 == CopyAction::Read
            &&& wrote.0 == (CopyLoop {
                phase: CopyPhase::Reading,
                total_bytes: counted(state.total_bytes, count),
            })
        }),
{
}

} // verus!
