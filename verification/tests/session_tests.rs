use chat_client_core::protocol::{Incoming, Outgoing};
use chat_client_core::session::{ChatLine, SessionState};
use chat_client_core::worker::{
    describe_connect_error, describe_stream_error, outbound_frame, ConnectFailure, SecurityInfo,
    StreamFailure, UiEvent, WorkerPhase, WorkerState,
};

fn connected_session(now: u64) -> SessionState {
    let mut s = SessionState::new(String::from("Bas"));
    s.connect_requested();
    let _ = s.process_event(UiEvent::Connected, now);
    s
}

#[test]
fn pong_round_trip_resolves_pending() {
    let mut s = connected_session(1000);
    let sent = s.handle_input("/ping tok1", 2000);
    assert_eq!(sent, Some(Outgoing::Ping { token: Some(String::from("tok1")) }));
    let ev = UiEvent::Incoming(Incoming::Pong { token: Some(String::from("tok1")), at: None });
    let _ = s.process_event(ev, 2500);
    assert_eq!(s.pending_pings.len(), 0);
    match s.messages.last() {
        Some(ChatLine::Status { text, .. }) => {
            assert_eq!(text, "Pong! roundtrip: 500ms (token: tok1...)");
        }
        other => panic!("expected a round-trip line, got {:?}", other),
    }
}

#[test]
fn pong_with_unknown_token_is_harmless() {
    let mut s = connected_session(1000);
    let before = s.pending_pings.len();
    let ev = UiEvent::Incoming(Incoming::Pong { token: Some(String::from("zzz")), at: None });
    let _ = s.process_event(ev, 2000);
    assert_eq!(s.pending_pings.len(), before);
    match s.messages.last() {
        Some(ChatLine::Status { text, .. }) => {
            assert_eq!(text, "Pong! (token: zzz...)");
        }
        other => panic!("expected a pong line, got {:?}", other),
    }
}

#[test]
fn auto_ping_fills_latency_window_silently() {
    let mut s = connected_session(1000);
    let cmd = s.maybe_send_auto_ping(7000);
    let token = match cmd {
        Some(Outgoing::Ping { token: Some(t) }) => t,
        other => panic!("expected an automatic ping, got {:?}", other),
    };
    assert!(token.starts_with("auto-"));
    let lines = s.messages.len();
    let ev = UiEvent::Incoming(Incoming::Pong { token: Some(token), at: None });
    let _ = s.process_event(ev, 7040);
    assert_eq!(s.latency_samples, vec![40]);
    assert_eq!(s.messages.len(), lines);
}

#[test]
fn auto_ping_at_most_one_per_interval() {
    let mut s = connected_session(1000);
    // readiness counts as the first mark, so nothing is due within the interval
    assert_eq!(s.maybe_send_auto_ping(3000), None);
    assert!(matches!(s.maybe_send_auto_ping(6000), Some(Outgoing::Ping { .. })));
    assert_eq!(s.maybe_send_auto_ping(7000), None);
    assert_eq!(s.maybe_send_auto_ping(10999), None);
    assert!(matches!(s.maybe_send_auto_ping(11000), Some(Outgoing::Ping { .. })));
}

#[test]
fn auto_ping_needs_a_connection() {
    let mut s = SessionState::new(String::new());
    assert_eq!(s.maybe_send_auto_ping(100000), None);
}

#[test]
fn latency_window_is_bounded_fifo() {
    let mut s = SessionState::new(String::new());
    for v in 0..105u64 {
        s.record_latency_sample(v);
    }
    assert_eq!(s.latency_samples.len(), 100);
    assert_eq!(s.latency_samples[0], 5);
    assert_eq!(*s.latency_samples.last().unwrap(), 104);
}

#[test]
fn latency_gauges() {
    let mut s = SessionState::new(String::new());
    assert_eq!(s.latency_avg_ms(), None);
    assert_eq!(s.latency_p95_ms(), None);
    for v in [10u64, 20, 30] {
        s.record_latency_sample(v);
    }
    assert_eq!(s.latency_avg_ms(), Some(20));
    let mut t = SessionState::new(String::new());
    for v in 1..=100u64 {
        t.record_latency_sample(v);
    }
    assert_eq!(t.latency_p95_ms(), Some(95));
}

#[test]
fn reconnect_counter_and_identity_reassertion() {
    let mut s = SessionState::new(String::from("Bas"));
    s.connect_requested();
    let first = s.process_event(UiEvent::Connected, 10);
    assert_eq!(first, Some(Outgoing::SetName { name: String::from("Bas") }));
    assert_eq!(s.metrics.reconnects, 0);
    let _ = s.process_event(UiEvent::Disconnected(None), 20);
    assert_eq!(s.pending_pings.len(), 0);
    assert_eq!(s.last_auto_ping_sent, None);
    assert!(!s.connected);
    s.connect_requested();
    let _ = s.process_event(UiEvent::Connected, 30);
    assert_eq!(s.metrics.reconnects, 1);
}

#[test]
fn guest_name_is_not_reasserted() {
    let mut s = SessionState::new(String::from("guest-42"));
    s.connect_requested();
    assert_eq!(s.process_event(UiEvent::Connected, 10), None);
}

#[test]
fn disconnect_reason_becomes_error_line() {
    let mut s = connected_session(10);
    let _ = s.process_event(UiEvent::Disconnected(Some(String::from("Connection aborted."))), 20);
    let n = s.messages.len();
    assert!(matches!(&s.messages[n - 2], ChatLine::Error(m) if m == "Connection aborted."));
    assert!(matches!(&s.messages[n - 1], ChatLine::System { text, .. } if text == "Disconnected"));
}

#[test]
fn warning_event_keeps_connection_and_counts_error() {
    let mut s = connected_session(10);
    let _ = s.process_event(UiEvent::Warning(String::from("oops")), 20);
    assert!(s.connected);
    assert_eq!(s.metrics.error_timestamps.len(), 1);
    let _ = s.process_event(UiEvent::Error(String::from("bad")), 30000);
    assert_eq!(s.metrics.error_timestamps.len(), 2);
    // a minute later the window has emptied
    s.prune_old_errors(120000);
    assert_eq!(s.metrics.error_timestamps.len(), 0);
}

#[test]
fn raw_lines_count_frames_and_stay_bounded() {
    let mut s = connected_session(10);
    let _ = s.process_event(UiEvent::Raw(String::from(">> {\"a\":1}")), 20);
    let _ = s.process_event(UiEvent::Raw(String::from("<< {\"b\":2}")), 30);
    assert_eq!(s.metrics.ws_out_frames, 1);
    assert_eq!(s.metrics.ws_in_frames, 1);
    assert_eq!(s.raw_messages[0].payload, "{\"a\":1}");
    for k in 0..510u64 {
        let _ = s.process_event(UiEvent::Raw(format!("<< {}", k)), 40 + k);
    }
    assert_eq!(s.raw_messages.len(), 500);
}

#[test]
fn ack_name_updates_identity() {
    let mut s = connected_session(10);
    let ev = UiEvent::Incoming(Incoming::AckName { name: String::from("Eva"), at: None });
    let _ = s.process_event(ev, 20);
    assert_eq!(s.username, "Eva");
    assert!(matches!(s.messages.last(), Some(ChatLine::System { text, .. }) if text == "Your name is now: Eva"));
}

#[test]
fn input_without_sink_reports_not_connected() {
    let mut s = SessionState::new(String::new());
    assert_eq!(s.handle_input("hello there", 10), None);
    assert!(matches!(s.messages.last(), Some(ChatLine::Error(m)) if m == "Not connected to server."));
}

#[test]
fn input_validation_never_reaches_network() {
    let mut s = connected_session(10);
    assert_eq!(s.handle_input("/name a", 20), None);
    assert!(matches!(s.messages.last(), Some(ChatLine::Error(_))));
}

#[test]
fn set_name_updates_preference() {
    let mut s = connected_session(10);
    let sent = s.handle_input("/name Eva", 20);
    assert_eq!(sent, Some(Outgoing::SetName { name: String::from("Eva") }));
    assert_eq!(s.preferred_username, "Eva");
}

#[test]
fn ai_prompt_notes_thinking() {
    let mut s = connected_session(10);
    let sent = s.handle_input("/ai why?", 20);
    assert_eq!(sent, Some(Outgoing::Ai { prompt: String::from("why?") }));
    assert!(matches!(s.messages.last(), Some(ChatLine::System { text, .. }) if text == "AI is thinking..."));
}

#[test]
fn request_disconnect_resets_connection_state() {
    let mut s = connected_session(10);
    let _ = s.handle_input("/ping tok", 20);
    assert!(s.request_disconnect());
    assert!(!s.connected);
    assert_eq!(s.pending_pings.len(), 0);
    assert!(matches!(s.messages.last(), Some(ChatLine::System { text, .. }) if text == "Disconnect requested"));
    assert!(!s.request_disconnect());
}

#[test]
fn worker_emits_security_before_connected() {
    let mut w = WorkerState::new();
    let info = SecurityInfo {
        url: String::from("ws://localhost:3001"),
        transport: String::from("ws"),
        tls: false,
        http_status: Some(101),
        headers: vec![(String::from("upgrade"), String::from("websocket"))],
    };
    let evs = w.on_handshake_ok(info.clone());
    assert_eq!(evs.len(), 2);
    assert!(matches!(&evs[0], UiEvent::Security(i) if i == &info));
    assert!(matches!(&evs[1], UiEvent::Connected));
    assert_eq!(w.phase, WorkerPhase::Open);
}

#[test]
fn worker_handshake_failure_errors_then_disconnects_once() {
    let mut w = WorkerState::new();
    let evs = w.on_handshake_fail(&ConnectFailure::Refused);
    assert_eq!(evs.len(), 2);
    assert!(matches!(&evs[0], UiEvent::Error(m)
        if m == "Connection refused. Controleer of de server draait en poort/open host klopt."));
    assert!(matches!(&evs[1], UiEvent::Disconnected(None)));
    assert_eq!(w.phase, WorkerPhase::Closed);
}

#[test]
fn worker_lifetime_emits_exactly_one_disconnect() {
    let mut w = WorkerState::new();
    let info = SecurityInfo {
        url: String::from("ws://h"),
        transport: String::from("ws"),
        tls: false,
        http_status: None,
        headers: Vec::new(),
    };
    let mut all = w.on_handshake_ok(info);
    all.extend(w.on_text_frame(&String::from("{\"type\":\"pong\"}")));
    all.extend(w.on_text_frame(&String::from("not json")));
    all.extend(w.on_peer_close());
    let disconnects = all
        .iter()
        .filter(|e| matches!(e, UiEvent::Disconnected(_)))
        .count();
    assert_eq!(disconnects, 1);
    assert_eq!(w.phase, WorkerPhase::Closed);
}

#[test]
fn worker_frame_events_order_raw_then_decoded() {
    let mut w = WorkerState::new();
    let info = SecurityInfo {
        url: String::from("ws://h"),
        transport: String::from("ws"),
        tls: false,
        http_status: None,
        headers: Vec::new(),
    };
    let _ = w.on_handshake_ok(info);
    let evs = w.on_text_frame(&String::from("{\"type\":\"system\",\"text\":\"hi\"}"));
    assert_eq!(evs.len(), 2);
    assert!(matches!(&evs[0], UiEvent::Raw(l) if l == "<< {\"type\":\"system\",\"text\":\"hi\"}"));
    assert!(matches!(&evs[1], UiEvent::Incoming(Incoming::System { .. })));
    let bad = w.on_text_frame(&String::from("garbage"));
    assert!(matches!(&bad[1], UiEvent::Warning(_)));
    assert_eq!(w.phase, WorkerPhase::Open);
}

#[test]
fn worker_transport_error_carries_reason() {
    let mut w = WorkerState::new();
    let info = SecurityInfo {
        url: String::from("ws://h"),
        transport: String::from("ws"),
        tls: false,
        http_status: None,
        headers: Vec::new(),
    };
    let _ = w.on_handshake_ok(info);
    let evs = w.on_transport_error(&StreamFailure::Reset);
    assert_eq!(evs.len(), 1);
    assert!(matches!(&evs[0], UiEvent::Disconnected(Some(m)) if m == "Connection reset by peer."));
}

#[test]
fn outbound_frame_reports_before_transmit() {
    let (json, ev) = outbound_frame(&Outgoing::Status);
    assert_eq!(json, "{\"type\":\"status\"}");
    assert!(matches!(ev, UiEvent::Raw(l) if l == ">> {\"type\":\"status\"}"));
}

#[test]
fn error_descriptions_are_exact() {
    assert_eq!(
        describe_connect_error(&ConnectFailure::TimedOut),
        "Connection timed out. Controleer netwerk, host en firewall."
    );
    assert_eq!(
        describe_connect_error(&ConnectFailure::Tls(String::from("boom"))),
        "TLS handshake failed: boom"
    );
    assert_eq!(describe_stream_error(&StreamFailure::Aborted), "Connection aborted.");
    assert_eq!(
        describe_stream_error(&StreamFailure::Other(String::from("gone"))),
        "Connection closed with error: gone"
    );
}
