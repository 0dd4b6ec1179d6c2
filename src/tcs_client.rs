//! The client side of one connection: its lifecycle, its timeouts, and the
//! course of a request from the line it sends to the outcome it returns.
//!
//! The client does no I/O itself. The code that owns the socket asks it for
//! the line to send, reports whether the write went through, performs the
//! reads it asks for, and reports what each read gave.

use vstd::prelude::*;
use crate::codec::{encode, request_line};
use crate::commands::TCSCommand;
use crate::error_codes::TcsError;
use crate::response::{
    first_terminator, is_reply_field, lemma_reply_keeps_payload, read_reply, reply_of,
    result_view, spaced_bytes, OutcomeView, ResponseOutcome,
};
use vstd::utf8::decode_utf8;
use crate::text::{decimal, decimal_string};

verus! {

/// The read and write timeout of a new connection, in milliseconds.
pub const DEFAULT_TIMEOUT_MS: u64 = 5000;

/// The TCP port on which the controller listens.
pub const TCS_SERVER_PORT: u16 = 10100;

/// The most bytes a response may take before it is given up as malformed.
pub const MAX_RESPONSE_LEN: usize = 1024;

/// Where a connection stands.
#[derive(Debug, PartialEq, Eq, Structural, Copy, Clone)]
pub enum Phase {
    /// No connection.
    Disconnected,
    /// Connected, with no request under way.
    Idle,
    /// A request line is being written.
    Sending,
    /// The response to a request is being read.
    Receiving,
}

/// The mathematical form of a `TCSClient`.
pub struct ClientModel {
    pub phase: Phase,
    pub read_timeout_ms: u64,
    pub write_timeout_ms: u64,
    /// Whether the request under way waits for a response.
    pub awaits_reply: bool,
    /// The read timeout of the request under way.
    pub call_timeout_ms: u64,
    /// The bytes of the response read so far.
    pub received: Seq<u8>,
}

/// What a read on the socket gave.
#[derive(Debug, PartialEq)]
pub enum ReadEvent {
    /// Some bytes.
    Data(Vec<u8>),
    /// The peer closed the connection.
    Closed,
    /// Nothing arrived within the read timeout.
    TimedOut,
    /// The read failed.
    Failed,
}

/// The mathematical form of a `ReadEvent`.
pub enum ReadEventView {
    Data(Seq<u8>),
    Closed,
    TimedOut,
    Failed,
}

impl View for ReadEvent {
    type V = ReadEventView;

    open spec fn view(&self) -> ReadEventView {
        match self {
            ReadEvent::Data(b) => ReadEventView::Data(b@),
            ReadEvent::Closed => ReadEventView::Closed,
            ReadEvent::TimedOut => ReadEventView::TimedOut,
            ReadEvent::Failed => ReadEventView::Failed,
        }
    }
}

/// What the socket's owner is to do next for the request under way.
#[derive(Debug, PartialEq)]
pub enum Step {
    /// Read once more, with this timeout in milliseconds.
    Read(u64),
    /// The request is over, with this result.
    Done(Result<ResponseOutcome, TcsError>),
}

/// The mathematical form of a `Step`.
pub enum StepView {
    Read(u64),
    Done(Result<OutcomeView, TcsError>),
}

impl View for Step {
    type V = StepView;

    open spec fn view(&self) -> StepView {
        match self {
            Step::Read(t) => StepView::Read(*t),
            Step::Done(r) => StepView::Done(result_view(*r)),
        }
    }
}

/// The timeout that `timeout_ms` asks for, or `otherwise` where it asks for none.
pub open spec fn timeout_or(timeout_ms: Option<u64>, otherwise: u64) -> u64 {
    match timeout_ms {
        Some(t) => t,
        None => otherwise,
    }
}

/// A client that has no connection yet.
pub open spec fn initial_model() -> ClientModel {
    ClientModel {
        phase: Phase::Disconnected,
        read_timeout_ms: DEFAULT_TIMEOUT_MS,
        write_timeout_ms: DEFAULT_TIMEOUT_MS,
        awaits_reply: false,
        call_timeout_ms: DEFAULT_TIMEOUT_MS,
        received: seq![],
    }
}

/// `m` once a connection is open, with both timeouts set to `timeout_ms`, or
/// to the default where it is absent.
pub open spec fn connected_model(m: ClientModel, timeout_ms: Option<u64>) -> ClientModel {
    let t = timeout_or(timeout_ms, DEFAULT_TIMEOUT_MS);
    ClientModel {
        phase: Phase::Idle,
        read_timeout_ms: t,
        write_timeout_ms: t,
        awaits_reply: false,
        call_timeout_ms: t,
        received: seq![],
    }
}

/// `m` with no request under way, in phase `phase`.
pub open spec fn settled(m: ClientModel, phase: Phase) -> ClientModel {
    ClientModel { phase, awaits_reply: false, received: seq![], ..m }
}

/// What disconnecting does to `m`, and what it returns.
pub open spec fn after_disconnect(m: ClientModel) -> (ClientModel, Result<(), TcsError>) {
    if m.phase == Phase::Disconnected {
        (m, Err(TcsError::NotConnected))
    } else {
        (settled(m, Phase::Disconnected), Ok(()))
    }
}

/// `m` once a request has started on it: the line goes out next.
pub open spec fn after_start(m: ClientModel, wait_for_response: bool, read_timeout_ms: Option<u64>) -> ClientModel {
    ClientModel {
        phase: Phase::Sending,
        awaits_reply: wait_for_response,
        call_timeout_ms: timeout_or(read_timeout_ms, m.read_timeout_ms),
        received: seq![],
        ..m
    }
}

/// What the end of the write does to `m`, and the step that follows. A failed
/// write gives the connection up; a request that waits for nothing is over
/// with an empty success; else a read follows.
pub open spec fn after_write(m: ClientModel, written: bool) -> (ClientModel, StepView) {
    if !written {
        (settled(m, Phase::Disconnected), StepView::Done(Err(TcsError::Io)))
    } else if !m.awaits_reply {
        (settled(m, Phase::Idle), StepView::Done(Ok(OutcomeView::Success(seq![]))))
    } else {
        (ClientModel { phase: Phase::Receiving, ..m }, StepView::Read(m.call_timeout_ms))
    }
}

/// What a read that gave `e` does to `m`, and the step that follows.
pub open spec fn after_read(m: ClientModel, e: ReadEventView) -> (ClientModel, StepView) {
    match e {
        ReadEventView::TimedOut => (settled(m, Phase::Idle), StepView::Done(Err(TcsError::Timeout))),
        ReadEventView::Closed => (settled(m, Phase::Disconnected), StepView::Done(Err(TcsError::Io))),
        ReadEventView::Failed => (settled(m, Phase::Disconnected), StepView::Done(Err(TcsError::Io))),
        ReadEventView::Data(bytes) => {
            let buf = m.received + bytes;
            match first_terminator(buf) {
                Some(p) => (settled(m, Phase::Idle), StepView::Done(reply_of(buf.take(p)))),
                None => if buf.len() > MAX_RESPONSE_LEN {
                    (settled(m, Phase::Idle), StepView::Done(Err(TcsError::Protocol)))
                } else {
                    (ClientModel { received: buf, ..m }, StepView::Read(m.call_timeout_ms))
                },
            }
        },
    }
}

/// Disconnecting twice is safe: the first call leaves no connection, and the
/// second reports `NotConnected` and changes nothing.
pub proof fn lemma_disconnect_idempotent(m: ClientModel)
    ensures
        after_disconnect(m).0.phase == Phase::Disconnected,
        after_disconnect(after_disconnect(m).0) == (
            after_disconnect(m).0,
            Err::<(), TcsError>(TcsError::NotConnected),
        ),
{
}

/// A request that waits for a response reads with the timeout given for the
/// call, or else with the connection's read timeout; and a read that times
/// out, at any point of the response, ends the request with `Timeout`, never
/// with an outcome, and leaves the connection ready for the next request.
pub proof fn lemma_timeout_boundary(
    m: ClientModel,
    read_timeout_ms: Option<u64>,
    r: ClientModel,
)
    requires
        m.phase == Phase::Idle,
        r.phase == Phase::Receiving,
    ensures
        after_write(after_start(m, true, read_timeout_ms), true).1 == StepView::Read(
            timeout_or(read_timeout_ms, m.read_timeout_ms),
        ),
        after_read(r, ReadEventView::TimedOut).1 == StepView::Done(Err(TcsError::Timeout)),
        after_read(r, ReadEventView::TimedOut).0.phase == Phase::Idle,
{
}

/// A request that waits for no response is over as soon as its line is
/// written: it asks for no read and returns an empty success, whatever the
/// controller would answer.
pub proof fn lemma_fire_and_forget(m: ClientModel, read_timeout_ms: Option<u64>)
    requires
        m.phase == Phase::Idle,
    ensures
        after_write(after_start(m, false, read_timeout_ms), true).1 == StepView::Done(
            Ok(OutcomeView::Success(seq![])),
        ),
        after_write(after_start(m, false, read_timeout_ms), true).0.phase == Phase::Idle,
{
}

/// A request that waits for a response and gets a whole success or warning
/// line in one read, `0` or `1` followed by fields that each hold neither a
/// space nor a carriage return, is over after that single read: it returns
/// exactly those fields, as text and in their order, and the connection is
/// ready for the next request.
pub proof fn lemma_one_read_keeps_payload(m: ClientModel, status: u8, fields: Seq<Seq<u8>>)
    requires
        m.phase == Phase::Receiving,
        m.received.len() == 0,
        status == 0x30 || status == 0x31,
        forall|i: int| 0 <= i < fields.len() ==> is_reply_field(#[trigger] fields[i]),
    ensures
        ({
            let buf = seq![status] + spaced_bytes(fields) + seq![0x0du8, 0x0au8];
            let payload = fields.map_values(|f: Seq<u8>| decode_utf8(f));
            &&& after_read(m, ReadEventView::Data(buf)).0.phase == Phase::Idle
            &&& after_read(m, ReadEventView::Data(buf)).1 == StepView::Done(
                Ok(
                    if status == 0x30 {
                        OutcomeView::Success(payload)
                    } else {
                        OutcomeView::Warning(payload)
                    },
                ),
            )
        }),
{
    let buf = seq![status] + spaced_bytes(fields) + seq![0x0du8, 0x0au8];
    lemma_reply_keeps_payload(status, fields);
    assert(m.received + buf =~= buf);
}

/// The address of the controller's server at `ip`: `<ip>:10100`.
pub fn server_address(ip: &str) -> (r: String)
    ensures
        r@ == ip@ + seq![':'] + decimal(TCS_SERVER_PORT as int),
{
    proof {
        reveal_strlit(":");
    }
    let port = decimal_string(TCS_SERVER_PORT as i32);
    String::from_str(ip).concat(":").concat(port.as_str())
}

/// The state of the protocol on one connection.
pub struct TCSClient {
    phase: Phase,
    read_timeout_ms: u64,
    write_timeout_ms: u64,
    awaits_reply: bool,
    call_timeout_ms: u64,
    received: Vec<u8>,
}

impl View for TCSClient {
    type V = ClientModel;

    closed spec fn view(&self) -> ClientModel {
        ClientModel {
            phase: self.phase,
            read_timeout_ms: self.read_timeout_ms,
            write_timeout_ms: self.write_timeout_ms,
            awaits_reply: self.awaits_reply,
            call_timeout_ms: self.call_timeout_ms,
            received: self.received@,
        }
    }
}

impl TCSClient {
    /// A client without a connection, with the default timeouts.
    pub fn new() -> (r: TCSClient)
        ensures
            r@ == initial_model(),
    {
        TCSClient {
            phase: Phase::Disconnected,
            read_timeout_ms: DEFAULT_TIMEOUT_MS,
            write_timeout_ms: DEFAULT_TIMEOUT_MS,
            awaits_reply: false,
            call_timeout_ms: DEFAULT_TIMEOUT_MS,
            received: Vec::new(),
        }
    }

    /// Records that a connection is open, with both timeouts set to
    /// `timeout_ms`, or to the default where it is absent.
    pub fn on_connected(&mut self, timeout_ms: Option<u64>)
        ensures
            final(self)@ == connected_model(old(self)@, timeout_ms),
    {
        let t = match timeout_ms {
            Some(t) => t,
            None => DEFAULT_TIMEOUT_MS,
        };
        self.phase = Phase::Idle;
        self.read_timeout_ms = t;
        self.write_timeout_ms = t;
        self.awaits_reply = false;
        self.call_timeout_ms = t;
        self.received = Vec::new();
    }

    /// Gives up the connection. Without one, it reports that and changes nothing.
    pub fn disconnect(&mut self) -> (r: Result<(), TcsError>)
        ensures
            (final(self)@, r) == after_disconnect(old(self)@),
    {
        if self.phase == Phase::Disconnected {
            Err(TcsError::NotConnected)
        } else {
            self.settle(Phase::Disconnected);
            Ok(())
        }
    }

    fn settle(&mut self, phase: Phase)
        ensures
            final(self)@ == settled(old(self)@, phase),
    {
        self.phase = phase;
        self.awaits_reply = false;
        self.received = Vec::new();
    }

    /// Sets the read timeout of the requests that follow.
    pub fn set_read_timeout(&mut self, timeout_ms: u64)
        ensures
            final(self)@ == (ClientModel { read_timeout_ms: timeout_ms, ..old(self)@ }),
    {
        self.read_timeout_ms = timeout_ms;
    }

    /// Whether a connection is open.
    pub fn is_connected(&self) -> (r: bool)
        ensures
            r == (self@.phase != Phase::Disconnected),
    {
        self.phase != Phase::Disconnected
    }

    /// Where the connection stands.
    pub fn phase(&self) -> (r: Phase)
        ensures
            r == self@.phase,
    {
        self.phase
    }

    /// The read timeout, in milliseconds.
    pub fn read_timeout_ms(&self) -> (r: u64)
        ensures
            r == self@.read_timeout_ms,
    {
        self.read_timeout_ms
    }

    /// The write timeout, in milliseconds.
    pub fn write_timeout_ms(&self) -> (r: u64)
        ensures
            r == self@.write_timeout_ms,
    {
        self.write_timeout_ms
    }

    /// Starts a request: the line to write for `command` with `args`. The
    /// response is read with `read_timeout_ms` where it is given, else with
    /// the read timeout of the connection. Without a connection it returns
    /// `NotConnected` and changes nothing.
    pub fn start_request(
        &mut self,
        command: TCSCommand,
        args: &Vec<String>,
        wait_for_response: bool,
        read_timeout_ms: Option<u64>,
    ) -> (r: Result<String, TcsError>)
        requires
            old(self)@.phase == Phase::Disconnected || old(self)@.phase == Phase::Idle,
        ensures
            old(self)@.phase == Phase::Disconnected ==> r == Err::<String, TcsError>(
                TcsError::NotConnected,
            ) && final(self)@ == old(self)@,
            old(self)@.phase == Phase::Idle ==> r is Ok && r->Ok_0@ == request_line(
                command,
                args.deep_view(),
            ) && final(self)@ == after_start(old(self)@, wait_for_response, read_timeout_ms),
    {
        if self.phase == Phase::Disconnected {
            return Err(TcsError::NotConnected);
        }
        let line = encode(command, args);
        self.phase = Phase::Sending;
        self.awaits_reply = wait_for_response;
        self.call_timeout_ms = match read_timeout_ms {
            Some(t) => t,
            None => self.read_timeout_ms,
        };
        self.received = Vec::new();
        Ok(line)
    }

    /// Takes note of the end of the write of the request line: `written`
    /// says whether the whole line went out.
    pub fn write_finished(&mut self, written: bool) -> (r: Step)
        requires
            old(self)@.phase == Phase::Sending,
        ensures
            (final(self)@, r@) == after_write(old(self)@, written),
    {
        if !written {
            self.settle(Phase::Disconnected);
            Step::Done(Err(TcsError::Io))
        } else if !self.awaits_reply {
            self.settle(Phase::Idle);
            let empty: Vec<String> = Vec::new();
            assert(empty.deep_view() =~= Seq::<Seq<char>>::empty());
            Step::Done(Ok(ResponseOutcome::Success(empty)))
        } else {
            self.phase = Phase::Receiving;
            Step::Read(self.call_timeout_ms)
        }
    }

    /// Takes note of what a read gave, and says what follows.
    pub fn read_finished(&mut self, event: ReadEvent) -> (r: Step)
        requires
            old(self)@.phase == Phase::Receiving,
        ensures
            (final(self)@, r@) == after_read(old(self)@, event@),
    {
        match event {
            ReadEvent::TimedOut => {
                self.settle(Phase::Idle);
                Step::Done(Err(TcsError::Timeout))
            },
            ReadEvent::Closed => {
                self.settle(Phase::Disconnected);
                Step::Done(Err(TcsError::Io))
            },
            ReadEvent::Failed => {
                self.settle(Phase::Disconnected);
                Step::Done(Err(TcsError::Io))
            },
            ReadEvent::Data(bytes) => {
                let mut bytes = bytes;
                self.received.append(&mut bytes);
                match read_reply(self.received.as_slice()) {
                    Some(result) => {
                        self.settle(Phase::Idle);
                        Step::Done(result)
                    },
                    None => {
                        if self.received.len() > MAX_RESPONSE_LEN {
                            self.settle(Phase::Idle);
                            Step::Done(Err(TcsError::Protocol))
                        } else {
                            Step::Read(self.call_timeout_ms)
                        }
                    },
                }
            },
        }
    }
}

} // verus!
