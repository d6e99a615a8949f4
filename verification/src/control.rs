//! Framing and state tracking for a single control command.

use vstd::prelude::*;
use crate::device::DeviceRecord;
use crate::text::{decimal, u32_to_decimal};

verus! {

/// The fixed single-line envelope of a control request: a correlation id, a
/// method name inserted verbatim inside quotes, and the already-serialized
/// parameter text inserted verbatim, terminated by the protocol's line
/// terminator.
pub open spec fn envelope(id: u32, method: Seq<char>, params: Seq<char>) -> Seq<char> {
    "{\"id\":"@ + decimal(id as nat) + ",\"method\":\""@ + method + "\",\"params\":["@ + params
        + "]}\r\n"@
}

/// Builds the framed request line for one command. Construction never fails;
/// the caller must supply an escape-safe method name, since no escaping is
/// performed.
pub fn create_message(id: &u32, method: &str, params: &str) -> (r: String)
    ensures
        r@ == envelope(*id, method@, params@),
{
    let mut out = String::from_str("{\"id\":");
    let digits = u32_to_decimal(*id);
    out.append(digits.as_str());
    out.append(",\"method\":\"");
    out.append(method);
    out.append("\",\"params\":[");
    out.append(params);
    out.append("]}\r\n");
    out
}

/// One outbound command: the identifier of the addressed device (used for
/// correlation only; the transport is addressed by the device's `address`),
/// the operation name, and the already-serialized argument text.
#[derive(Debug, PartialEq, Eq)]
pub struct ControlRequest {
    pub target_id: u32,
    pub method: String,
    pub params: String,
}

/// The quoted form of a state argument: the text wrapped in double quotes,
/// as a single string parameter of the envelope.
pub open spec fn quoted(s: Seq<char>) -> Seq<char> {
    "\""@ + s + "\""@
}

/// Translates one command token from the caller into the control request it
/// stands for. The token `"pow"` maps to the wire method `set_power` with the
/// state argument wrapped in quotes as a string parameter; every other token
/// is silently ignored and no request is produced.
pub fn process_cmd(bulb_id: u32, cmd: &str, state: &str) -> (r: Option<ControlRequest>)
    ensures
        cmd@ == "pow"@ ==> (r matches Some(req) && req.target_id == bulb_id && req.method@
            == "set_power"@ && req.params@ == quoted(state@)),
        cmd@ != "pow"@ ==> r is None,
{
    let token = String::from_str(cmd);
    let pow = String::from_str("pow");
    if token == pow {
        let mut params = String::from_str("\"");
        params.append(state);
        params.append("\"");
        Some(
            ControlRequest {
                target_id: bulb_id,
                method: String::from_str("set_power"),
                params,
            },
        )
    } else {
        None
    }
}

/// The raw response read back from the device, decoded as text and surfaced
/// verbatim; the library never parses it into a structured result.
#[derive(Debug, PartialEq, Eq)]
pub struct ControlResponse {
    pub body: String,
}

/// Why a control attempt ended without a response. Each failure is terminal
/// for the current command: there are no retry edges.
#[derive(Clone, Copy, Debug, PartialEq, Eq, Structural)]
pub enum TransportError {
    /// The connection to the device's address could not be opened.
    ConnectFailed,
    /// The framed request could not be written.
    WriteFailed,
    /// The single read of the response failed.
    ReadFailed,
}

impl TransportError {
    /// A human-readable message for the failure, for surfacing to the caller.
    pub fn describe(&self) -> (m: String)
        ensures
            *self is ConnectFailed ==> m@ == "Couldn't start the stream."@,
            *self is WriteFailed ==> m@ == "Couldn't send to the stream"@,
            *self is ReadFailed ==> m@ == "Couldn't read from the stream."@,
    {
        match self {
            TransportError::ConnectFailed => String::from_str("Couldn't start the stream."),
            TransportError::WriteFailed => String::from_str("Couldn't send to the stream"),
            TransportError::ReadFailed => String::from_str("Couldn't read from the stream."),
        }
    }
}

/// Where a control session stands. The happy path is
/// `Idle -> Connected -> Sent -> Done`; a failed connect, write or read moves
/// to `Failed`, and `Done` and `Failed` are terminal.
#[derive(Debug, PartialEq, Eq)]
pub enum SessionState {
    /// No connection has been attempted yet.
    Idle,
    /// The connection is open; the request has not been written.
    Connected,
    /// The request was written; no response has been read.
    Sent,
    /// The response was read; the command is complete.
    Done(ControlResponse),
    /// A transport step failed; the command is abandoned.
    Failed(TransportError),
}

/// What the transport layer reported back for the step it was asked to take.
#[derive(Debug, PartialEq, Eq)]
pub enum SessionEvent {
    /// The connection was opened.
    ConnectOk,
    /// The connection could not be opened.
    ConnectErr,
    /// The request was written. A partial write is not distinguished from a
    /// full one: this design makes a single write call.
    WriteOk,
    /// The write failed.
    WriteErr,
    /// One read completed with this response body, possibly empty.
    ReadOk(ControlResponse),
    /// The read failed.
    ReadErr,
}

/// The next transport step a session asks for.
#[derive(Debug, PartialEq, Eq)]
pub enum SessionAction {
    /// Open a point-to-point connection to this address.
    Connect(String),
    /// Write this framed request in one call.
    Write(String),
    /// Read once into a fixed-size buffer.
    Read,
    /// The session is over; nothing more to do.
    Stop,
}

/// The transition relation of the session state machine. An event that does
/// not belong to the current state leaves it unchanged; in particular `Done`
/// and `Failed` are terminal.
pub open spec fn step_spec(s: SessionState, e: SessionEvent) -> SessionState {
    match (s, e) {
        (SessionState::Idle, SessionEvent::ConnectOk) => SessionState::Connected,
        (SessionState::Idle, SessionEvent::ConnectErr) => SessionState::Failed(
            TransportError::ConnectFailed,
        ),
        (SessionState::Connected, SessionEvent::WriteOk) => SessionState::Sent,
        (SessionState::Connected, SessionEvent::WriteErr) => SessionState::Failed(
            TransportError::WriteFailed,
        ),
        (SessionState::Sent, SessionEvent::ReadOk(response)) => SessionState::Done(response),
        (SessionState::Sent, SessionEvent::ReadErr) => SessionState::Failed(
            TransportError::ReadFailed,
        ),
        (other, _) => other,
    }
}

/// One `connect -> send -> receive` exchange with one device. The caller
/// performs each `SessionAction` outside the library and feeds the outcome
/// back as a `SessionEvent`.
#[derive(Debug, PartialEq, Eq)]
pub struct ControlSession {
    pub device: DeviceRecord,
    pub frame: String,
    pub state: SessionState,
}

/// The transport step a session in a given state asks for.
pub open spec fn action_of(sess: ControlSession) -> SessionAction {
    match sess.state {
        SessionState::Idle => SessionAction::Connect(sess.device.address),
        SessionState::Connected => SessionAction::Write(sess.frame),
        SessionState::Sent => SessionAction::Read,
        SessionState::Done(_) => SessionAction::Stop,
        SessionState::Failed(_) => SessionAction::Stop,
    }
}

impl ControlSession {
    /// Opens a session for one command: the request is framed up front and
    /// the session starts idle, before any connection attempt. Framing never
    /// fails for well-formed inputs.
    pub fn begin(device: DeviceRecord, request: &ControlRequest) -> (sess: ControlSession)
        ensures
            sess.device == device,
            sess.state == SessionState::Idle,
            sess.frame@ == envelope(request.target_id, request.method@, request.params@),
    {
        let frame = create_message(&request.target_id, request.method.as_str(), request.params.as_str());
        ControlSession { device, frame, state: SessionState::Idle }
    }

    /// The next transport step to take: connect when idle, write the frame
    /// once connected, read once sent, and stop once done or failed.
    pub fn pending_action(&self) -> (a: SessionAction)
        ensures
            a == action_of(*self),
    {
        match &self.state {
            SessionState::Idle => SessionAction::Connect(self.device.address.clone()),
            SessionState::Connected => SessionAction::Write(self.frame.clone()),
            SessionState::Sent => SessionAction::Read,
            SessionState::Done(_) => SessionAction::Stop,
            SessionState::Failed(_) => SessionAction::Stop,
        }
    }

    /// Advances the session by one reported outcome, following the
    /// transition relation exactly; the device and the frame never change.
    pub fn on_event(self, e: SessionEvent) -> (next: ControlSession)
        ensures
            next.device == self.device,
            next.frame == self.frame,
            next.state == step_spec(self.state, e),
    {
        let ControlSession { device, frame, state } = self;
        let next_state = match (state, e) {
            (SessionState::Idle, SessionEvent::ConnectOk) => SessionState::Connected,
            (SessionState::Idle, SessionEvent::ConnectErr) => SessionState::Failed(
                TransportError::ConnectFailed,
            ),
            (SessionState::Connected, SessionEvent::WriteOk) => SessionState::Sent,
            (SessionState::Connected, SessionEvent::WriteErr) => SessionState::Failed(
                TransportError::WriteFailed,
            ),
            (SessionState::Sent, SessionEvent::ReadOk(response)) => SessionState::Done(response),
            (SessionState::Sent, SessionEvent::ReadErr) => SessionState::Failed(
                TransportError::ReadFailed,
            ),
            (other, _) => other,
        };
        ControlSession { device, frame, state: next_state }
    }
}

/// A connect failure surfaces as `ConnectFailed`, and the failed session asks
/// for no further transport step: in particular, no write is ever attempted.
pub proof fn lemma_connect_failure_aborts(before: ControlSession, after: ControlSession)
    requires
        before.state is Idle,
        after.state == step_spec(before.state, SessionEvent::ConnectErr),
    ensures
        after.state == SessionState::Failed(TransportError::ConnectFailed),
        action_of(after) == SessionAction::Stop,
{
}

/// After a successful write, a read that completes is a success whatever the
/// body holds — an empty body (a read of zero bytes) included: the session is
/// done with that body, and no error is reported.
pub proof fn lemma_read_completes_session(before: ControlSession, response: ControlResponse)
    requires
        before.state is Sent,
    ensures
        step_spec(before.state, SessionEvent::ReadOk(response)) == SessionState::Done(response),
{
}

/// `Done` and `Failed` are terminal: no event moves the session out of them,
/// so every failure path ends the command with no retry.
pub proof fn lemma_terminal_states(s: SessionState)
    requires
        s is Done || s is Failed,
    ensures
        forall|e: SessionEvent| #[trigger] step_spec(s, e) == s,
{
}

} // verus!
