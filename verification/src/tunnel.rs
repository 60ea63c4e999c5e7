use crate::codec::Nugget;
use crate::text::{ascii_chars, decimal_bytes, decimal_string};
use vstd::prelude::*;

verus! {

/// The identity of one tunnel, for logs.
#[derive(Clone, Debug)]
pub struct TunnelCtx {
    id: u128,
}

impl TunnelCtx {
    pub fn new(id: u128) -> (r: TunnelCtx)
        ensures
            r.id() == id,
    {
        TunnelCtx { id }
    }

    pub closed spec fn id(&self) -> u128 {
        self.id
    }

    /// The tunnel's id in decimal notation.
    pub fn to_string(&self) -> (r: String)
        ensures
            r@ == ascii_chars(decimal_bytes(self.id() as nat)),
    {
        decimal_string(self.id)
    }
}

/// The answer to a tunnel request, and the outcome of a handshake.
#[derive(Clone, Copy, Debug, PartialEq, Eq, Structural)]
pub enum EstablishTunnelResult {
    /// Successfully connected to target.
    Success,
    /// Successfully connected to target but has a nugget to send after connection establishment.
    OkWithNugget,
    /// Malformed request
    BadRequest,
    /// Target is not allowed
    Forbidden,
    /// Unsupported operation, however valid for the protocol.
    OperationNotAllowed,
    /// The client failed to send a tunnel request timely.
    RequestTimeout,
    /// Cannot connect to target.
    BadGateway,
    /// Connection attempt timed out.
    GatewayTimeout,
    /// Busy. Try again later.
    TooManyRequests,
    /// Any other error. E.g. an abrupt I/O error.
    ServerError,
}

impl EstablishTunnelResult {
    /// The answer to a failed connection attempt: a timeout becomes
    /// `GatewayTimeout`, any other I/O error `BadGateway`.
    pub fn from_connect_error(timed_out: bool) -> (r: EstablishTunnelResult)
        ensures
            r == (if timed_out {
                EstablishTunnelResult::GatewayTimeout
            } else {
                EstablishTunnelResult::BadGateway
            }),
    {
        if timed_out {
            EstablishTunnelResult::GatewayTimeout
        } else {
            EstablishTunnelResult::BadGateway
        }
    }
}

/// Where a tunnel leads, and what it carries there first.
pub trait TunnelTarget {
    type Addr;

    /// The target carries a nugget.
    spec fn carries_nugget(&self) -> bool;

    fn target_addr(&self) -> Self::Addr;

    fn has_nugget(&self) -> (r: bool)
        ensures
            r == self.carries_nugget(),
    ;

    fn nugget(&self) -> (r: &Nugget)
        requires
            self.carries_nugget(),
    ;
}

/// The bytes of an optional nugget.
pub open spec fn nugget_bytes(n: Option<Nugget>) -> Option<Seq<u8>> {
    match n {
        Some(n) => Some(n@),
        None => None,
    }
}

/// The target of an HTTP tunnel: an address `host:port`.
pub struct HttpTunnelTarget {
    target: String,
    pub nugget: Option<Nugget>,
}

impl HttpTunnelTarget {
    pub fn new(target: String, nugget: Option<Nugget>) -> (r: HttpTunnelTarget)
        ensures
            r.target() == target@,
            r.nugget_bytes() == nugget_bytes(nugget),
    {
        HttpTunnelTarget { target, nugget }
    }

    /// The address the tunnel leads to.
    pub closed spec fn target(&self) -> Seq<char> {
        self.target@
    }

    /// The bytes of the nugget the target carries, if any.
    pub closed spec fn nugget_bytes(&self) -> Option<Seq<u8>> {
        nugget_bytes(self.nugget)
    }

    /// The target as it is displayed: its address.
    pub fn to_string(&self) -> (r: String)
        ensures
            r@ == self.target(),
    {
        self.target.clone()
    }
}

impl TunnelTarget for HttpTunnelTarget {
    type Addr = String;

    closed spec fn carries_nugget(&self) -> bool {
        self.nugget is Some
    }

    fn target_addr(&self) -> (r: String)
        ensures
            r@ == self.target(),
    {
        self.target.clone()
    }

    fn has_nugget(&self) -> (r: bool) {
        self.nugget.is_some()
    }

    fn nugget(&self) -> (r: &Nugget)
        ensures
            self.nugget_bytes() == Some(r@),
    {
        self.nugget.as_ref().expect("Cannot use this method without checking `has_nugget`")
    }
}

/// Why a relay stopped.
#[derive(Clone, Copy, Debug, PartialEq, Eq, Structural)]
pub enum RelayShutdownReasons {
    NoReason,
    GracefulShutdown,
    ReadError,
    WriteError,
    ReaderTimeout,
    WriterTimeout,
}

/// Stats after the relay is closed. Can be used for telemetry/monitoring.
#[derive(Clone, Copy, Debug)]
pub struct RelayStats {
    pub shutdown_reason: RelayShutdownReasons,
}

/// What a relay does next after a read or a write on its connections.
#[derive(Clone, Copy, Debug, PartialEq, Eq, Structural)]
pub enum RelayStep {
    /// Write the `len` bytes just read to the destination.
    Forward { len: usize },
    /// Read again from the source.
    ReadMore,
    /// Stop relaying, for this reason.
    Stop { reason: RelayShutdownReasons },
}

/// One direction of a tunnel: it copies what it reads from a source to a
/// destination until either side stops.
#[derive(Clone, Copy, Debug)]
pub struct Relay {
    name: &'static str,
}

impl Relay {
    pub fn new(name: &'static str) -> (r: Relay)
        ensures
            r.name()@ == name@,
    {
        Relay { name }
    }

    pub closed spec fn name(&self) -> &'static str {
        self.name
    }

    /// The relay's name, for logs.
    pub fn get_name(&self) -> (r: &'static str)
        ensures
            r@ == self.name()@,
    {
        self.name
    }

    /// The step after a read from the source: `None` for a read that failed,
    /// `Some(n)` for one that gave `n` bytes. A failed read stops the relay as
    /// a reader timeout, an empty one as a graceful shutdown; otherwise the
    /// bytes are forwarded.
    pub fn after_read(&self, read: Option<usize>) -> (r: RelayStep)
        ensures
            r == (match read {
                None => RelayStep::Stop { reason: RelayShutdownReasons::ReaderTimeout },
                Some(n) => if n == 0 {
                    RelayStep::Stop { reason: RelayShutdownReasons::GracefulShutdown }
                } else {
                    RelayStep::Forward { len: n }
                },
            }),
    {
        match read {
            None => RelayStep::Stop { reason: RelayShutdownReasons::ReaderTimeout },
            Some(n) => {
                if n == 0 {
                    RelayStep::Stop { reason: RelayShutdownReasons::GracefulShutdown }
                } else {
                    RelayStep::Forward { len: n }
                }
            },
        }
    }

    /// The step after writing forwarded bytes to the destination: a failed
    /// write stops the relay with a write error, a delivered one reads again.
    pub fn after_write(&self, delivered: bool) -> (r: RelayStep)
        ensures
            r == (if delivered {
                RelayStep::ReadMore
            } else {
                RelayStep::Stop { reason: RelayShutdownReasons::WriteError }
            }),
    {
        if delivered {
            RelayStep::ReadMore
        } else {
            RelayStep::Stop { reason: RelayShutdownReasons::WriteError }
        }
    }

    /// The stats of a relay that stopped for `reason`.
    pub fn stats(&self, reason: RelayShutdownReasons) -> (r: RelayStats)
        ensures
            r.shutdown_reason == reason,
    {
        RelayStats { shutdown_reason: reason }
    }
}

/// Statistics. No sensitive information.
#[derive(Clone, Copy, Debug)]
pub struct TunnelStats {
    result: EstablishTunnelResult,
}

impl TunnelStats {
    pub fn new(result: EstablishTunnelResult) -> (r: TunnelStats)
        ensures
            r.result() == result,
    {
        TunnelStats { result }
    }

    pub closed spec fn result(&self) -> EstablishTunnelResult {
        self.result
    }

    pub fn get_result(&self) -> (r: EstablishTunnelResult)
        ensures
            r == self.result(),
    {
        self.result
    }
}

/// Where a tunnel's handshake stands.
#[derive(Clone, Copy, Debug, PartialEq, Eq, Structural)]
pub enum HandshakeState {
    /// Waiting for the client's tunnel request.
    AwaitingRequest,
    /// Connecting to the requested target.
    Connecting { has_nugget: bool },
    /// Sending `response` to the client; `connected` tells whether a target
    /// connection is open.
    Responding { response: EstablishTunnelResult, connected: bool },
    /// The tunnel is established: data is relayed both ways.
    Relaying,
    /// The handshake failed with `result`; the connections are dropped.
    Finished { result: EstablishTunnelResult },
}

/// What happened during the handshake.
#[derive(Clone, Copy, Debug, PartialEq, Eq, Structural)]
pub enum HandshakeEvent {
    /// The client's request was decoded into a target.
    RequestDecoded { has_nugget: bool },
    /// The client's request was refused with `error`.
    RequestRejected { error: EstablishTunnelResult },
    /// The client closed the connection before a request came.
    ClientClosed,
    /// The connection to the target is open.
    TargetConnected,
    /// The connection to the target failed; `timed_out` tells whether it was a timeout.
    TargetFailed { timed_out: bool },
    /// The response was written to the client, or the write failed.
    ResponseWritten { delivered: bool },
}

/// What the tunnel does next.
#[derive(Clone, Copy, Debug, PartialEq, Eq, Structural)]
pub enum HandshakeAction {
    /// Connect to the decoded target.
    ConnectTarget,
    /// Write `response` to the client.
    SendResponse { response: EstablishTunnelResult },
    /// Relay data between client and target.
    StartRelay,
    /// Stop: the tunnel's stats report `result`.
    Finish { result: EstablishTunnelResult },
}

/// The handshake's next step once `response` is due, with or without a target
/// connection: a nugget-carrying success is not written to the client, any
/// other response is.
pub open spec fn respond(response: EstablishTunnelResult, connected: bool) -> (
    HandshakeState,
    HandshakeAction,
) {
    if response == EstablishTunnelResult::OkWithNugget {
        if connected {
            (HandshakeState::Relaying, HandshakeAction::StartRelay)
        } else {
            (HandshakeState::Finished { result: response }, HandshakeAction::Finish { result: response })
        }
    } else {
        (
            HandshakeState::Responding { response, connected },
            HandshakeAction::SendResponse { response },
        )
    }
}

/// The handshake's state may take `event`.
pub open spec fn accepts(state: HandshakeState, event: HandshakeEvent) -> bool {
    match state {
        HandshakeState::AwaitingRequest => match event {
            HandshakeEvent::RequestDecoded { .. } => true,
            HandshakeEvent::RequestRejected { .. } => true,
            HandshakeEvent::ClientClosed => true,
            _ => false,
        },
        HandshakeState::Connecting { .. } => match event {
            HandshakeEvent::TargetConnected => true,
            HandshakeEvent::TargetFailed { .. } => true,
            _ => false,
        },
        HandshakeState::Responding { .. } => event is ResponseWritten,
        HandshakeState::Relaying => false,
        HandshakeState::Finished { .. } => false,
    }
}

/// The handshake's transitions.
pub open spec fn handshake_step(state: HandshakeState, event: HandshakeEvent) -> (
    HandshakeState,
    HandshakeAction,
) {
    match (state, event) {
        (HandshakeState::AwaitingRequest, HandshakeEvent::RequestDecoded { has_nugget }) => (
            HandshakeState::Connecting { has_nugget },
            HandshakeAction::ConnectTarget,
        ),
        (HandshakeState::AwaitingRequest, HandshakeEvent::RequestRejected { error }) => respond(
            error,
            false,
        ),
        (HandshakeState::AwaitingRequest, HandshakeEvent::ClientClosed) => respond(
            EstablishTunnelResult::BadRequest,
            false,
        ),
        (HandshakeState::Connecting { has_nugget }, HandshakeEvent::TargetConnected) => respond(
            if has_nugget {
                EstablishTunnelResult::OkWithNugget
            } else {
                EstablishTunnelResult::Success
            },
            true,
        ),
        (HandshakeState::Connecting { .. }, HandshakeEvent::TargetFailed { timed_out }) => respond(
            if timed_out {
                EstablishTunnelResult::GatewayTimeout
            } else {
                EstablishTunnelResult::BadGateway
            },
            false,
        ),
        (
            HandshakeState::Responding { response, connected },
            HandshakeEvent::ResponseWritten { delivered },
        ) => if !delivered {
            (
                HandshakeState::Finished { result: EstablishTunnelResult::RequestTimeout },
                HandshakeAction::Finish { result: EstablishTunnelResult::RequestTimeout },
            )
        } else if connected {
            (HandshakeState::Relaying, HandshakeAction::StartRelay)
        } else {
            (HandshakeState::Finished { result: response }, HandshakeAction::Finish { result: response })
        },
        _ => (state, HandshakeAction::Finish { result: EstablishTunnelResult::ServerError }),
    }
}

fn respond_exec(response: EstablishTunnelResult, connected: bool) -> (r: (
    HandshakeState,
    HandshakeAction,
))
    ensures
        r == respond(response, connected),
{
    if response == EstablishTunnelResult::OkWithNugget {
        if connected {
            (HandshakeState::Relaying, HandshakeAction::StartRelay)
        } else {
            (HandshakeState::Finished { result: response }, HandshakeAction::Finish { result: response })
        }
    } else {
        (
            HandshakeState::Responding { response, connected },
            HandshakeAction::SendResponse { response },
        )
    }
}

impl HandshakeState {
    /// The state of a tunnel whose client just connected.
    pub fn start() -> (r: HandshakeState)
        ensures
            r == HandshakeState::AwaitingRequest,
    {
        HandshakeState::AwaitingRequest
    }

    /// Whether this state may take `event`.
    pub fn accepts(&self, event: &HandshakeEvent) -> (r: bool)
        ensures
            r == accepts(*self, *event),
    {
        match self {
            HandshakeState::AwaitingRequest => match event {
                HandshakeEvent::RequestDecoded { .. } => true,
                HandshakeEvent::RequestRejected { .. } => true,
                HandshakeEvent::ClientClosed => true,
                _ => false,
            },
            HandshakeState::Connecting { .. } => match event {
                HandshakeEvent::TargetConnected => true,
                HandshakeEvent::TargetFailed { .. } => true,
                _ => false,
            },
            HandshakeState::Responding { .. } => match event {
                HandshakeEvent::ResponseWritten { .. } => true,
                _ => false,
            },
            HandshakeState::Relaying => false,
            HandshakeState::Finished { .. } => false,
        }
    }

    /// The next state and action of the handshake after `event`.
    pub fn step(self, event: HandshakeEvent) -> (r: (HandshakeState, HandshakeAction))
        requires
            accepts(self, event),
        ensures
            r == handshake_step(self, event),
    {
        match (self, event) {
            (HandshakeState::AwaitingRequest, HandshakeEvent::RequestDecoded { has_nugget }) => (
                HandshakeState::Connecting { has_nugget },
                HandshakeAction::ConnectTarget,
            ),
            (HandshakeState::AwaitingRequest, HandshakeEvent::RequestRejected { error }) => {
                respond_exec(error, false)
            },
            (HandshakeState::AwaitingRequest, HandshakeEvent::ClientClosed) => {
                respond_exec(EstablishTunnelResult::BadRequest, false)
            },
            (HandshakeState::Connecting { has_nugget }, HandshakeEvent::TargetConnected) => {
                let response = if has_nugget {
                    EstablishTunnelResult::OkWithNugget
                } else {
                    EstablishTunnelResult::Success
                };
                respond_exec(response, true)
            },
            (HandshakeState::Connecting { .. }, HandshakeEvent::TargetFailed { timed_out }) => {
                respond_exec(EstablishTunnelResult::from_connect_error(timed_out), false)
            },
            (
                HandshakeState::Responding { response, connected },
                HandshakeEvent::ResponseWritten { delivered },
            ) => {
                if !delivered {
                    (
                        HandshakeState::Finished { result: EstablishTunnelResult::RequestTimeout },
                        HandshakeAction::Finish { result: EstablishTunnelResult::RequestTimeout },
                    )
                } else if connected {
                    (HandshakeState::Relaying, HandshakeAction::StartRelay)
                } else {
                    (
                        HandshakeState::Finished { result: response },
                        HandshakeAction::Finish { result: response },
                    )
                }
            },
            _ => (self, HandshakeAction::Finish { result: EstablishTunnelResult::ServerError }),
        }
    }
}

/// The state a handshake reaches from `state` through `events`, with the
/// actions it takes on the way; `None` when some event is not accepted.
pub open spec fn run(state: HandshakeState, events: Seq<HandshakeEvent>) -> Option<
    (HandshakeState, Seq<HandshakeAction>),
>
    decreases events.len(),
{
    if events.len() == 0 {
        Some((state, seq![]))
    } else if !accepts(state, events[0]) {
        None
    } else {
        let (next, action) = handshake_step(state, events[0]);
        match run(next, events.drop_first()) {
            Some((last, actions)) => Some((last, seq![action] + actions)),
            None => None,
        }
    }
}

/// How many responses `actions` write to the client.
pub open spec fn responses_sent(actions: Seq<HandshakeAction>) -> nat
    decreases actions.len(),
{
    if actions.len() == 0 {
        0
    } else {
        (if actions[0] is SendResponse {
            1nat
        } else {
            0nat
        }) + responses_sent(actions.drop_first())
    }
}

proof fn lemma_relaying_needs_connection(state: HandshakeState, events: Seq<HandshakeEvent>)
    ensures
        run(state, events) matches Some((last, _)) && last is Relaying ==> {
            ||| state is Relaying
            ||| state matches HandshakeState::Responding { connected, .. } && connected
            ||| events.contains(HandshakeEvent::TargetConnected)
        },
    decreases events.len(),
{
    if events.len() > 0 && accepts(state, events[0]) {
        let (next, action) = handshake_step(state, events[0]);
        let rest = events.drop_first();
        lemma_relaying_needs_connection(next, rest);
        if rest.contains(HandshakeEvent::TargetConnected) {
            let k = choose|k: int| 0 <= k < rest.len() && rest[k] == HandshakeEvent::TargetConnected;
            assert(events[k + 1] == HandshakeEvent::TargetConnected);
        }
        if events[0] == HandshakeEvent::TargetConnected {
            assert(events[0] == HandshakeEvent::TargetConnected);
        }
    }
}

/// A tunnel relays data only after its target connection opened.
pub proof fn lemma_relay_only_after_connection(events: Seq<HandshakeEvent>)
    ensures
        run(HandshakeState::AwaitingRequest, events) matches Some((last, _)) && last is Relaying
            ==> events.contains(HandshakeEvent::TargetConnected),
{
    lemma_relaying_needs_connection(HandshakeState::AwaitingRequest, events);
}

/// How many more responses a handshake in `state` may write.
pub open spec fn responses_left(state: HandshakeState) -> nat {
    match state {
        HandshakeState::AwaitingRequest => 1,
        HandshakeState::Connecting { .. } => 1,
        _ => 0,
    }
}

proof fn lemma_responses_bounded(state: HandshakeState, events: Seq<HandshakeEvent>)
    ensures
        run(state, events) matches Some((_, actions)) ==> responses_sent(actions) <= responses_left(
            state,
        ),
    decreases events.len(),
{
    if events.len() > 0 && accepts(state, events[0]) {
        let (next, action) = handshake_step(state, events[0]);
        lemma_responses_bounded(next, events.drop_first());
        if let Some((last, actions)) = run(next, events.drop_first()) {
            assert((seq![action] + actions).drop_first() =~= actions);
        }
    }
}

/// A handshake writes at most one response to its client.
pub proof fn lemma_at_most_one_response(events: Seq<HandshakeEvent>)
    ensures
        run(HandshakeState::AwaitingRequest, events) matches Some((_, actions)) ==> responses_sent(
            actions,
        ) <= 1,
{
    lemma_responses_bounded(HandshakeState::AwaitingRequest, events);
}

/// A success that carries a nugget is never written to the client.
pub proof fn lemma_nugget_success_never_sent(state: HandshakeState, event: HandshakeEvent)
    requires
        accepts(state, event),
    ensures
        handshake_step(state, event).1 != (HandshakeAction::SendResponse {
            response: EstablishTunnelResult::OkWithNugget,
        }),
{
}

/// The response written once a target connection opened is a success; the
/// one written without a connection is the error that ended the attempt.
pub proof fn lemma_success_iff_connected(state: HandshakeState, event: HandshakeEvent)
    requires
        accepts(state, event),
        handshake_step(state, event).1 is SendResponse,
    ensures
        (handshake_step(state, event).1 == HandshakeAction::SendResponse {
            response: EstablishTunnelResult::Success,
        }) <==> (state is Connecting && event == HandshakeEvent::TargetConnected)
            || event == (HandshakeEvent::RequestRejected { error: EstablishTunnelResult::Success }),
{
}

/// A rejected request is answered with its own error: for every error other
/// than a nugget-carrying success, the handshake writes that error to the
/// client and keeps no target connection.
pub proof fn lemma_rejection_answered_with_its_error(error: EstablishTunnelResult)
    requires
        error != EstablishTunnelResult::OkWithNugget,
    ensures
        handshake_step(
            HandshakeState::AwaitingRequest,
            HandshakeEvent::RequestRejected { error },
        ) == (HandshakeState::Responding { response: error, connected: false },
        HandshakeAction::SendResponse { response: error }),
        handshake_step(
            HandshakeState::Responding { response: error, connected: false },
            HandshakeEvent::ResponseWritten { delivered: true },
        ) == (HandshakeState::Finished { result: error }, HandshakeAction::Finish { result: error }),
{
}

} // verus!
