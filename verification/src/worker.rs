//! The connection worker's decision core: a state machine over one
//! connection's lifetime. The I/O shell drives it with what happened on the
//! wire (handshake outcome, inbound frames, transport errors) and forwards
//! the events it answers with, in order, to the session. The machine owns
//! the lifecycle contract: `SecurityInfo` comes before `Connected`, and one
//! connection emits exactly one `Disconnected`, whatever ended it.
use vstd::prelude::*;

use crate::protocol::{
    encode_spec, encode_outgoing, incoming_parse_spec, Incoming, IncomingParse, IncomingParseV,
    IncomingV, Outgoing,
};
use crate::text::{chars_to_string, push_chars, str_to_chars};

verus! {

/// What the consumer can ask the worker to do.
#[derive(Debug, Clone, PartialEq)]
pub enum WsCommand {
    Send(Outgoing),
    Disconnect,
}

/// What the handshake negotiated, reported once per connection.
#[derive(Debug, Clone, PartialEq)]
pub struct SecurityInfo {
    pub url: String,
    pub transport: String,
    pub tls: bool,
    pub http_status: Option<u16>,
    pub headers: Vec<(String, String)>,
}

pub struct SecurityInfoV {
    pub url: Seq<char>,
    pub transport: Seq<char>,
    pub tls: bool,
    pub http_status: Option<u16>,
    pub headers: Seq<(Seq<char>, Seq<char>)>,
}

impl View for SecurityInfo {
    type V = SecurityInfoV;

    open spec fn view(&self) -> SecurityInfoV {
        SecurityInfoV {
            url: self.url@,
            transport: self.transport@,
            tls: self.tls,
            http_status: self.http_status,
            headers: Seq::new(self.headers@.len(), |k: int| (self.headers@[k].0@, self.headers@[k].1@)),
        }
    }
}

/// One event handed from the worker to the consumer.
#[derive(Debug, Clone, PartialEq)]
pub enum UiEvent {
    Connected,
    Disconnected(Option<String>),
    Incoming(Incoming),
    Raw(String),
    Security(SecurityInfo),
    Warning(String),
    Error(String),
}

pub enum UiEventV {
    Connected,
    Disconnected(Option<Seq<char>>),
    Incoming(IncomingV),
    Raw(Seq<char>),
    Security(SecurityInfoV),
    Warning(Seq<char>),
    Error(Seq<char>),
}

impl View for UiEvent {
    type V = UiEventV;

    open spec fn view(&self) -> UiEventV {
        match self {
            UiEvent::Connected => UiEventV::Connected,
            UiEvent::Disconnected(r) => UiEventV::Disconnected(crate::protocol::opt_str_view(*r)),
            UiEvent::Incoming(e) => UiEventV::Incoming(e@),
            UiEvent::Raw(s) => UiEventV::Raw(s@),
            UiEvent::Security(i) => UiEventV::Security(i@),
            UiEvent::Warning(s) => UiEventV::Warning(s@),
            UiEvent::Error(s) => UiEventV::Error(s@),
        }
    }
}

// ---------------------------------------------------------------------------
// Error taxonomy
// ---------------------------------------------------------------------------
/// Why a handshake failed, with the transport's own words where no fixed
/// phrasing applies.
#[derive(Debug, Clone, PartialEq)]
pub enum ConnectFailure {
    Refused,
    TimedOut,
    HostLookupFailed,
    Io(String),
    Tls(String),
    BadUrl(String),
    Other(String),
}

pub enum ConnectFailureV {
    Refused,
    TimedOut,
    HostLookupFailed,
    Io(Seq<char>),
    Tls(Seq<char>),
    BadUrl(Seq<char>),
    Other(Seq<char>),
}

impl View for ConnectFailure {
    type V = ConnectFailureV;

    open spec fn view(&self) -> ConnectFailureV {
        match self {
            ConnectFailure::Refused => ConnectFailureV::Refused,
            ConnectFailure::TimedOut => ConnectFailureV::TimedOut,
            ConnectFailure::HostLookupFailed => ConnectFailureV::HostLookupFailed,
            ConnectFailure::Io(d) => ConnectFailureV::Io(d@),
            ConnectFailure::Tls(d) => ConnectFailureV::Tls(d@),
            ConnectFailure::BadUrl(d) => ConnectFailureV::BadUrl(d@),
            ConnectFailure::Other(d) => ConnectFailureV::Other(d@),
        }
    }
}

/// Why an open connection's stream failed.
#[derive(Debug, Clone, PartialEq)]
pub enum StreamFailure {
    Reset,
    Aborted,
    TimedOut,
    Io(String),
    Other(String),
}

pub enum StreamFailureV {
    Reset,
    Aborted,
    TimedOut,
    Io(Seq<char>),
    Other(Seq<char>),
}

impl View for StreamFailure {
    type V = StreamFailureV;

    open spec fn view(&self) -> StreamFailureV {
        match self {
            StreamFailure::Reset => StreamFailureV::Reset,
            StreamFailure::Aborted => StreamFailureV::Aborted,
            StreamFailure::TimedOut => StreamFailureV::TimedOut,
            StreamFailure::Io(d) => StreamFailureV::Io(d@),
            StreamFailure::Other(d) => StreamFailureV::Other(d@),
        }
    }
}

/// The human-readable description of each handshake failure.
pub open spec fn connect_error_text(e: ConnectFailureV) -> Seq<char> {
    match e {
        ConnectFailureV::Refused => "Connection refused. Controleer of de server draait en poort/open host klopt."@,
        ConnectFailureV::TimedOut => "Connection timed out. Controleer netwerk, host en firewall."@,
        ConnectFailureV::HostLookupFailed => "DNS/host lookup failed. Controleer de server hostname."@,
        ConnectFailureV::Io(d) => "Network I/O error while connecting: "@ + d,
        ConnectFailureV::Tls(d) => "TLS handshake failed: "@ + d,
        ConnectFailureV::BadUrl(d) => "Invalid WebSocket URL: "@ + d,
        ConnectFailureV::Other(d) => "Connection failed: "@ + d,
    }
}

fn concat_lit(prefix: &str, detail: &String) -> (r: String)
    ensures
        r@ == prefix@ + detail@,
{
    let mut out = str_to_chars(prefix);
    let d = str_to_chars(detail.as_str());
    push_chars(&mut out, &d);
    chars_to_string(&out)
}

fn lit_string(s: &str) -> (r: String)
    ensures
        r@ == s@,
{
    let v = str_to_chars(s);
    chars_to_string(&v)
}

/// Maps a handshake failure to its distinct human-readable description.
pub fn describe_connect_error(e: &ConnectFailure) -> (r: String)
    ensures
        r@ == connect_error_text(e@),
{
    match e {
        ConnectFailure::Refused => lit_string(
            "Connection refused. Controleer of de server draait en poort/open host klopt.",
        ),
        ConnectFailure::TimedOut => lit_string(
            "Connection timed out. Controleer netwerk, host en firewall.",
        ),
        ConnectFailure::HostLookupFailed => lit_string(
            "DNS/host lookup failed. Controleer de server hostname.",
        ),
        ConnectFailure::Io(d) => concat_lit("Network I/O error while connecting: ", d),
        ConnectFailure::Tls(d) => concat_lit("TLS handshake failed: ", d),
        ConnectFailure::BadUrl(d) => concat_lit("Invalid WebSocket URL: ", d),
        ConnectFailure::Other(d) => concat_lit("Connection failed: ", d),
    }
}

/// The human-readable description of each mid-session failure.
pub open spec fn stream_error_text(e: StreamFailureV) -> Seq<char> {
    match e {
        StreamFailureV::Reset => "Connection reset by peer."@,
        StreamFailureV::Aborted => "Connection aborted."@,
        StreamFailureV::TimedOut => "Connection timed out."@,
        StreamFailureV::Io(d) => "Connection I/O error: "@ + d,
        StreamFailureV::Other(d) => "Connection closed with error: "@ + d,
    }
}

/// Maps a mid-session transport failure to its description.
pub fn describe_stream_error(e: &StreamFailure) -> (r: String)
    ensures
        r@ == stream_error_text(e@),
{
    match e {
        StreamFailure::Reset => lit_string("Connection reset by peer."),
        StreamFailure::Aborted => lit_string("Connection aborted."),
        StreamFailure::TimedOut => lit_string("Connection timed out."),
        StreamFailure::Io(d) => concat_lit("Connection I/O error: ", d),
        StreamFailure::Other(d) => concat_lit("Connection closed with error: ", d),
    }
}

// ---------------------------------------------------------------------------
// Lifecycle state machine
// ---------------------------------------------------------------------------
/// Where one connection stands in its life.
#[derive(Debug, Clone, Copy, PartialEq, Eq, Structural)]
pub enum WorkerPhase {
    Connecting,
    Open,
    Closed,
}

/// One thing the wire did, as the I/O shell reports it to the machine.
pub enum WorkerStepV {
    HandshakeOk(SecurityInfoV),
    HandshakeFail(ConnectFailureV),
    TextFrame(Seq<char>),
    PeerClose,
    StreamEnd,
    TransportError(StreamFailureV),
}

/// Whether the machine accepts this report in this phase.
pub open spec fn step_enabled(ph: WorkerPhase, st: WorkerStepV) -> bool {
    match st {
        WorkerStepV::HandshakeOk(_) => ph == WorkerPhase::Connecting,
        WorkerStepV::HandshakeFail(_) => ph == WorkerPhase::Connecting,
        WorkerStepV::TextFrame(_) => ph == WorkerPhase::Open,
        WorkerStepV::PeerClose => ph == WorkerPhase::Open,
        WorkerStepV::StreamEnd => ph == WorkerPhase::Open,
        WorkerStepV::TransportError(_) => ph == WorkerPhase::Open,
    }
}

/// The phase the machine moves to.
pub open spec fn step_next(ph: WorkerPhase, st: WorkerStepV) -> WorkerPhase {
    match st {
        WorkerStepV::HandshakeOk(_) => WorkerPhase::Open,
        WorkerStepV::HandshakeFail(_) => WorkerPhase::Closed,
        WorkerStepV::TextFrame(_) => WorkerPhase::Open,
        WorkerStepV::PeerClose => WorkerPhase::Closed,
        WorkerStepV::StreamEnd => WorkerPhase::Closed,
        WorkerStepV::TransportError(_) => WorkerPhase::Closed,
    }
}

/// The events the machine emits for this report, in order.
pub open spec fn step_events(ph: WorkerPhase, st: WorkerStepV) -> Seq<UiEventV> {
    match st {
        WorkerStepV::HandshakeOk(info) => seq![UiEventV::Security(info), UiEventV::Connected],
        WorkerStepV::HandshakeFail(e) => seq![
            UiEventV::Error(connect_error_text(e)),
            UiEventV::Disconnected(Option::None),
        ],
        WorkerStepV::TextFrame(text) => seq![UiEventV::Raw("<< "@ + text)] + (match incoming_parse_spec(
            text,
        ) {
            IncomingParseV::Message(e) => seq![UiEventV::Incoming(e)],
            IncomingParseV::Warning(w) => seq![UiEventV::Warning(w)],
        }),
        WorkerStepV::PeerClose => seq![UiEventV::Disconnected(Option::None)],
        WorkerStepV::StreamEnd => seq![UiEventV::Disconnected(Option::None)],
        WorkerStepV::TransportError(e) => seq![
            UiEventV::Disconnected(Option::Some(stream_error_text(e))),
        ],
    }
}

pub open spec fn is_disconnected_event(e: UiEventV) -> bool {
    e is Disconnected
}

/// How many `Disconnected` events a sequence holds.
pub open spec fn disconnect_count(evs: Seq<UiEventV>) -> int
    decreases evs.len(),
{
    if evs.len() == 0 {
        0
    } else {
        disconnect_count(evs.drop_last()) + if is_disconnected_event(evs.last()) {
            1int
        } else {
            0int
        }
    }
}

proof fn lemma_disconnect_count_app(a: Seq<UiEventV>, b: Seq<UiEventV>)
    ensures
        disconnect_count(a + b) == disconnect_count(a) + disconnect_count(b),
    decreases b.len(),
{
    if b.len() == 0 {
        assert(a + b =~= a);
    } else {
        assert((a + b).drop_last() =~= a + b.drop_last());
        assert((a + b).last() == b.last());
        lemma_disconnect_count_app(a, b.drop_last());
    }
}

/// The worker's lifecycle state. A fresh machine is made for every connect
/// call; none is ever reused.
pub struct WorkerState {
    pub phase: WorkerPhase,
}

impl WorkerState {
    pub open spec fn phase_of(self) -> WorkerPhase {
        self.phase
    }

    /// A machine for one new connection attempt, in its handshake.
    pub fn new() -> (r: WorkerState)
        ensures
            r.phase == WorkerPhase::Connecting,
    {
        WorkerState { phase: WorkerPhase::Connecting }
    }

    /// The handshake succeeded: report what it negotiated, then readiness,
    /// in that order.
    pub fn on_handshake_ok(&mut self, info: SecurityInfo) -> (evs: Vec<UiEvent>)
        requires
            old(self).phase == WorkerPhase::Connecting,
        ensures
            final(self).phase == step_next(old(self).phase, WorkerStepV::HandshakeOk(info@)),
            events_view(evs@) == step_events(old(self).phase, WorkerStepV::HandshakeOk(info@)),
    {
        self.phase = WorkerPhase::Open;
        let mut evs: Vec<UiEvent> = Vec::new();
        evs.push(UiEvent::Security(info));
        evs.push(UiEvent::Connected);
        proof {
            assert(events_view(evs@) =~= step_events(
                old(self).phase,
                WorkerStepV::HandshakeOk(info@),
            ));
        }
        evs
    }

    /// The handshake failed: one error, then the one `Disconnected`.
    pub fn on_handshake_fail(&mut self, e: &ConnectFailure) -> (evs: Vec<UiEvent>)
        requires
            old(self).phase == WorkerPhase::Connecting,
        ensures
            final(self).phase == step_next(old(self).phase, WorkerStepV::HandshakeFail(e@)),
            events_view(evs@) == step_events(old(self).phase, WorkerStepV::HandshakeFail(e@)),
    {
        self.phase = WorkerPhase::Closed;
        let mut evs: Vec<UiEvent> = Vec::new();
        evs.push(UiEvent::Error(describe_connect_error(e)));
        evs.push(UiEvent::Disconnected(None));
        proof {
            assert(events_view(evs@) =~= step_events(
                old(self).phase,
                WorkerStepV::HandshakeFail(e@),
            ));
        }
        evs
    }

    /// A text frame arrived: first the verbatim frame, tagged inbound, then
    /// the decoded event or the warning it degrades to. The connection is
    /// not torn down on a malformed or unknown frame.
    pub fn on_text_frame(&mut self, text: &String) -> (evs: Vec<UiEvent>)
        requires
            old(self).phase == WorkerPhase::Open,
        ensures
            final(self).phase == step_next(old(self).phase, WorkerStepV::TextFrame(text@)),
            events_view(evs@) == step_events(old(self).phase, WorkerStepV::TextFrame(text@)),
    {
        let mut raw = str_to_chars("<< ");
        let tc = str_to_chars(text.as_str());
        push_chars(&mut raw, &tc);
        let mut evs: Vec<UiEvent> = Vec::new();
        evs.push(UiEvent::Raw(chars_to_string(&raw)));
        match crate::protocol::parse_incoming_text(text.as_str()) {
            IncomingParse::Message(e) => evs.push(UiEvent::Incoming(e)),
            IncomingParse::Warning(w) => evs.push(UiEvent::Warning(w)),
        }
        proof {
            assert(events_view(evs@) =~= step_events(
                old(self).phase,
                WorkerStepV::TextFrame(text@),
            ));
        }
        evs
    }

    /// The peer closed gracefully: the one `Disconnected`, with no reason.
    pub fn on_peer_close(&mut self) -> (evs: Vec<UiEvent>)
        requires
            old(self).phase == WorkerPhase::Open,
        ensures
            final(self).phase == step_next(old(self).phase, WorkerStepV::PeerClose),
            events_view(evs@) == step_events(old(self).phase, WorkerStepV::PeerClose),
    {
        self.phase = WorkerPhase::Closed;
        let mut evs: Vec<UiEvent> = Vec::new();
        evs.push(UiEvent::Disconnected(None));
        proof {
            assert(events_view(evs@) =~= step_events(old(self).phase, WorkerStepV::PeerClose));
        }
        evs
    }

    /// The inbound stream ended without a close frame: same graceful end.
    pub fn on_stream_end(&mut self) -> (evs: Vec<UiEvent>)
        requires
            old(self).phase == WorkerPhase::Open,
        ensures
            final(self).phase == step_next(old(self).phase, WorkerStepV::StreamEnd),
            events_view(evs@) == step_events(old(self).phase, WorkerStepV::StreamEnd),
    {
        self.phase = WorkerPhase::Closed;
        let mut evs: Vec<UiEvent> = Vec::new();
        evs.push(UiEvent::Disconnected(None));
        proof {
            assert(events_view(evs@) =~= step_events(old(self).phase, WorkerStepV::StreamEnd));
        }
        evs
    }

    /// The transport failed mid-session: the one `Disconnected`, carrying
    /// the classified reason.
    pub fn on_transport_error(&mut self, e: &StreamFailure) -> (evs: Vec<UiEvent>)
        requires
            old(self).phase == WorkerPhase::Open,
        ensures
            final(self).phase == step_next(old(self).phase, WorkerStepV::TransportError(e@)),
            events_view(evs@) == step_events(old(self).phase, WorkerStepV::TransportError(e@)),
    {
        self.phase = WorkerPhase::Closed;
        let mut evs: Vec<UiEvent> = Vec::new();
        evs.push(UiEvent::Disconnected(Some(describe_stream_error(e))));
        proof {
            assert(events_view(evs@) =~= step_events(
                old(self).phase,
                WorkerStepV::TransportError(e@),
            ));
        }
        evs
    }
}

pub open spec fn events_view(evs: Seq<UiEvent>) -> Seq<UiEventV> {
    Seq::new(evs.len(), |k: int| evs[k]@)
}

/// What the outbound path does with one command: encode it and report the
/// frame, tagged outbound, before it is transmitted. This consults no
/// state: the queue serializes writers, and a send failure is the inbound
/// path's to report.
pub fn outbound_frame(cmd: &Outgoing) -> (r: (String, UiEvent))
    ensures
        r.0@ == encode_spec(cmd@),
        r.1@ == UiEventV::Raw(">> "@ + encode_spec(cmd@)),
{
    let json = encode_outgoing(cmd);
    let mut raw = str_to_chars(">> ");
    let jc = str_to_chars(json.as_str());
    push_chars(&mut raw, &jc);
    (json, UiEvent::Raw(chars_to_string(&raw)))
}


// ---------------------------------------------------------------------------
// The lifetime law
// ---------------------------------------------------------------------------
/// The phase a run of reports leaves the machine in, starting from a fresh
/// machine in its handshake.
pub open spec fn run_phase(steps: Seq<WorkerStepV>) -> WorkerPhase
    decreases steps.len(),
{
    if steps.len() == 0 {
        WorkerPhase::Connecting
    } else {
        step_next(run_phase(steps.drop_last()), steps.last())
    }
}

/// Whether every report in the run was accepted in the phase it met.
pub open spec fn valid_run(steps: Seq<WorkerStepV>) -> bool {
    forall|k: int|
        0 <= k < steps.len() ==> step_enabled(
            run_phase(#[trigger] steps.subrange(0, k)),
            steps[k],
        )
}

/// Every event a run emits, in order.
pub open spec fn run_events(steps: Seq<WorkerStepV>) -> Seq<UiEventV>
    decreases steps.len(),
{
    if steps.len() == 0 {
        Seq::empty()
    } else {
        run_events(steps.drop_last()) + step_events(run_phase(steps.drop_last()), steps.last())
    }
}

/// Law: over any run of one connection's machine, exactly one
/// `Disconnected` event is emitted if the connection has closed — whether
/// by handshake failure, graceful close, stream end or transport error —
/// and none before it closes. No duplicates, no omissions.
pub proof fn lemma_single_disconnect(steps: Seq<WorkerStepV>)
    requires
        valid_run(steps),
    ensures
        disconnect_count(run_events(steps)) == (if run_phase(steps) == WorkerPhase::Closed {
            1int
        } else {
            0int
        }),
    decreases steps.len(),
{
    if steps.len() == 0 {
    } else {
        let pre = steps.drop_last();
        let st = steps.last();
        assert(valid_run(pre)) by {
            assert forall|k: int| 0 <= k < pre.len() implies step_enabled(
                run_phase(#[trigger] pre.subrange(0, k)),
                pre[k],
            ) by {
                assert(pre.subrange(0, k) =~= steps.subrange(0, k));
                assert(step_enabled(run_phase(steps.subrange(0, k)), steps[k]));
            }
        }
        lemma_single_disconnect(pre);
        assert(steps.subrange(0, steps.len() - 1) =~= pre);
        assert(step_enabled(run_phase(pre), st));
        lemma_disconnect_count_app(run_events(pre), step_events(run_phase(pre), st));
        match st {
            WorkerStepV::HandshakeOk(info) => {
                lemma_count_single(UiEventV::Security(info));
                lemma_count_single(UiEventV::Connected);
                lemma_disconnect_count_app(
                    seq![UiEventV::Security(info)],
                    seq![UiEventV::Connected],
                );
                assert(seq![UiEventV::Security(info)] + seq![UiEventV::Connected]
                    =~= step_events(run_phase(pre), st));
            },
            WorkerStepV::HandshakeFail(e) => {
                lemma_count_single(UiEventV::Error(connect_error_text(e)));
                lemma_count_single(UiEventV::Disconnected(Option::None));
                lemma_disconnect_count_app(
                    seq![UiEventV::Error(connect_error_text(e))],
                    seq![UiEventV::Disconnected(Option::None)],
                );
                assert(seq![UiEventV::Error(connect_error_text(e))] + seq![
                    UiEventV::Disconnected(Option::None),
                ] =~= step_events(run_phase(pre), st));
            },
            WorkerStepV::TextFrame(text) => {
                let rest = match incoming_parse_spec(text) {
                    IncomingParseV::Message(e) => seq![UiEventV::Incoming(e)],
                    IncomingParseV::Warning(w) => seq![UiEventV::Warning(w)],
                };
                lemma_disconnect_count_app(seq![UiEventV::Raw("<< "@ + text)], rest);
                lemma_count_single(UiEventV::Raw("<< "@ + text));
                match incoming_parse_spec(text) {
                    IncomingParseV::Message(e) => lemma_count_single(UiEventV::Incoming(e)),
                    IncomingParseV::Warning(w) => lemma_count_single(UiEventV::Warning(w)),
                }
            },
            WorkerStepV::PeerClose => {
                lemma_count_single(UiEventV::Disconnected(Option::None));
            },
            WorkerStepV::StreamEnd => {
                lemma_count_single(UiEventV::Disconnected(Option::None));
            },
            WorkerStepV::TransportError(e) => {
                lemma_count_single(UiEventV::Disconnected(Option::Some(stream_error_text(e))));
            },
        }
    }
}

proof fn lemma_count_single(e: UiEventV)
    ensures
        disconnect_count(seq![e]) == (if is_disconnected_event(e) {
            1int
        } else {
            0int
        }),
{
    assert(seq![e].drop_last() =~= Seq::<UiEventV>::empty());
    assert(disconnect_count(Seq::<UiEventV>::empty()) == 0);
}

} // verus!
