use clasp::client_error::ClientError;
use clasp::p2p::{AnswerStep, IceStep, P2PEvent, P2PManager, P2PSignal, SignalStep};

fn manager(session: &str) -> P2PManager {
    let mut m = P2PManager::new();
    m.set_session_id(session.to_string());
    m
}

#[test]
fn p2p_announcements_skip_ourselves() {
    let mut m = manager("me");
    assert!(m.handle_announce("me".to_string(), vec!["webrtc".to_string()]).is_none());
    assert!(m.known_peers().is_empty());
    let e = m.handle_announce("peer-a".to_string(), vec!["webrtc".to_string(), "reliable".to_string()]);
    assert!(matches!(e, Some(P2PEvent::PeerAnnounced { ref session_id, ref features }) if session_id == "peer-a" && features.len() == 2));
    m.handle_announce("peer-b".to_string(), vec![]);
    m.handle_announce("peer-a".to_string(), vec![]);
    assert_eq!(m.known_peers(), vec!["peer-a".to_string(), "peer-b".to_string()]);
}

#[test]
fn p2p_correlation_needs_a_session() {
    let m = P2PManager::new();
    assert!(matches!(m.correlation_for("peer"), Err(ClientError::NotConnected)));
    let m = manager("me");
    let c = m.correlation_for("peer").expect("a session");
    assert!(c.starts_with("me-peer-"));
    assert_eq!(c.len(), "me-peer-".len() + 36);
    assert_eq!(ClientError::NotConnected.message(), "not connected");
    assert_eq!(ClientError::SendFailed("x".to_string()).message(), "send failed: x");
}

#[test]
fn p2p_offer_answer_and_candidates() {
    let mut m = manager("me");
    m.offer_sent("peer".to_string(), "corr-1".to_string());
    assert!(!m.is_peer_connected("peer"));
    // A candidate for another correlation is ignored; ours goes to the transport.
    assert_eq!(m.handle_ice_candidate("peer", "cand-0".to_string(), "other"), IceStep::Ignore);
    assert_eq!(m.handle_ice_candidate("peer", "cand-1".to_string(), "corr-1"), IceStep::Add);
    // The transport refused it: it waits for the answer.
    m.queue_candidate("peer", "cand-1".to_string());
    assert!(matches!(m.handle_answer("peer", "other"), AnswerStep::Ignore));
    match m.handle_answer("peer", "corr-1") {
        AnswerStep::Apply { pending_candidates } => assert_eq!(pending_candidates, vec!["cand-1".to_string()]),
        AnswerStep::Ignore => panic!("expected the answer to apply"),
    }
    match m.handle_answer("peer", "corr-1") {
        AnswerStep::Apply { pending_candidates } => assert!(pending_candidates.is_empty()),
        AnswerStep::Ignore => panic!("expected the answer to apply"),
    }
    assert!(matches!(m.handle_answer("nobody", "corr-1"), AnswerStep::Ignore));
    assert!(m.handle_connected("peer", "other").is_none());
    assert!(matches!(m.handle_connected("peer", "corr-1"), Some(P2PEvent::Connected { ref peer_session_id }) if peer_session_id == "peer"));
    assert!(m.is_peer_connected("peer"));
}

#[test]
fn p2p_mark_and_disconnect() {
    let mut m = manager("me");
    m.offer_received("peer".to_string(), "corr-9".to_string());
    match m.mark_connected("peer") {
        Ok(Some((P2PSignal::Connected { from, correlation_id }, P2PEvent::Connected { peer_session_id }))) => {
            assert_eq!(from, "me");
            assert_eq!(correlation_id, "corr-9");
            assert_eq!(peer_session_id, "peer");
        }
        other => panic!("unexpected {:?}", other),
    }
    assert!(m.is_peer_connected("peer"));
    assert!(matches!(m.mark_connected("nobody"), Ok(None)));
    match m.disconnect_peer("peer") {
        Ok(Some((P2PSignal::Disconnected { from, correlation_id, reason }, P2PEvent::Disconnected { peer_session_id, reason: r2 }))) => {
            assert_eq!(from, "me");
            assert_eq!(correlation_id, "corr-9");
            assert_eq!(reason.as_deref(), Some("User requested disconnect"));
            assert_eq!(peer_session_id, "peer");
            assert_eq!(r2.as_deref(), Some("User requested disconnect"));
        }
        other => panic!("unexpected {:?}", other),
    }
    assert!(!m.is_peer_connected("peer"));
    assert!(matches!(m.disconnect_peer("peer"), Ok(None)));

    let mut no_session = P2PManager::new();
    no_session.offer_received("peer".to_string(), "c".to_string());
    assert!(matches!(no_session.mark_connected("peer"), Err(ClientError::NotConnected)));
    assert!(matches!(no_session.disconnect_peer("peer"), Err(ClientError::NotConnected)));
    assert!(!no_session.is_peer_connected("peer"));

    let mut remote = manager("me");
    remote.offer_sent("peer".to_string(), "c".to_string());
    let e = remote.handle_disconnected("peer", Some("bye".to_string()));
    assert!(matches!(e, P2PEvent::Disconnected { ref peer_session_id, reason: Some(ref r) } if peer_session_id == "peer" && r == "bye"));
    assert!(matches!(remote.handle_answer("peer", "c"), AnswerStep::Ignore));
}

#[test]
fn p2p_signals_dispatched() {
    let mut m = manager("me");
    assert!(m.signal_for_us("/p2p/signal/me", "/p2p/signal/"));
    assert!(!m.signal_for_us("/p2p/signal/you", "/p2p/signal/"));
    assert!(!P2PManager::new().signal_for_us("/p2p/signal/me", "/p2p/signal/"));

    let offer = P2PSignal::Offer { from: "peer".to_string(), sdp: "v=0".to_string(), correlation_id: "c1".to_string() };
    assert!(matches!(m.handle_signal(offer), SignalStep::AnswerOffer { ref from, ref sdp, ref correlation_id }
        if from == "peer" && sdp == "v=0" && correlation_id == "c1"));
    m.offer_sent("peer".to_string(), "c1".to_string());
    let cand = P2PSignal::IceCandidate { from: "peer".to_string(), candidate: "x".to_string(), correlation_id: "c1".to_string() };
    assert!(matches!(m.handle_signal(cand), SignalStep::AddCandidate { ref from, ref candidate } if from == "peer" && candidate == "x"));
    let answer = P2PSignal::Answer { from: "peer".to_string(), sdp: "a".to_string(), correlation_id: "c1".to_string() };
    assert!(matches!(m.handle_signal(answer), SignalStep::ApplyAnswer { ref pending_candidates, .. } if pending_candidates.is_empty()));
    let connected = P2PSignal::Connected { from: "peer".to_string(), correlation_id: "c1".to_string() };
    assert!(matches!(m.handle_signal(connected), SignalStep::Report(Some(P2PEvent::Connected { .. }))));
    assert!(m.is_peer_connected("peer"));
    let gone = P2PSignal::Disconnected { from: "peer".to_string(), correlation_id: "c1".to_string(), reason: None };
    assert!(matches!(m.handle_signal(gone), SignalStep::Report(Some(P2PEvent::Disconnected { reason: None, .. }))));
    assert!(!m.is_peer_connected("peer"));
    let stray = P2PSignal::Answer { from: "peer".to_string(), sdp: "a".to_string(), correlation_id: "c1".to_string() };
    assert!(matches!(m.handle_signal(stray), SignalStep::Report(None)));
}
