use biubo_waf::events::{admit_stream, should_receive_event, EventBroadcaster, StreamAction, StreamInput, StreamRefusal, StreamState, WafEventKind};
use biubo_waf::models::WafApiKey;

fn perms(p: &[&str]) -> Vec<String> {
    p.iter().map(|s| s.to_string()).collect()
}

#[test]
fn test_should_receive_event_read_permission() {
    let permissions = perms(&["read"]);
    assert!(should_receive_event(&permissions, WafEventKind::Detection));
    assert!(should_receive_event(&permissions, WafEventKind::Cluster));
}

#[test]
fn test_should_receive_event_stats_permission() {
    let permissions = perms(&["stats"]);
    assert!(should_receive_event(&permissions, WafEventKind::Detection));
    assert!(should_receive_event(&permissions, WafEventKind::Block));
    assert!(!should_receive_event(&permissions, WafEventKind::Cluster));
    assert!(!should_receive_event(&permissions, WafEventKind::ConfigChange));
}

#[test]
fn test_should_receive_event_events_permission() {
    let permissions = perms(&["events"]);
    assert!(should_receive_event(&permissions, WafEventKind::Detection));
    assert!(should_receive_event(&permissions, WafEventKind::Cluster));
    assert!(!should_receive_event(&permissions, WafEventKind::ConfigChange));
}

#[test]
fn test_should_receive_event_wildcard_permission() {
    let permissions = perms(&["*"]);
    assert!(should_receive_event(&permissions, WafEventKind::Detection));
    assert!(should_receive_event(&permissions, WafEventKind::Cluster));
    assert!(should_receive_event(&permissions, WafEventKind::ConfigChange));
}

#[test]
fn test_should_receive_event_no_permission() {
    let permissions: Vec<String> = vec![];
    assert!(!should_receive_event(&permissions, WafEventKind::Detection));
}

#[test]
fn test_is_stats_related() {
    assert!(WafEventKind::Detection.is_stats_related());
    assert!(WafEventKind::Block.is_stats_related());
    assert!(WafEventKind::Unblock.is_stats_related());
    assert!(WafEventKind::ThreatScoreUpdate.is_stats_related());
    assert!(!WafEventKind::Cluster.is_stats_related());
    assert!(!WafEventKind::ConfigChange.is_stats_related());
}

#[test]
fn test_is_cluster_related() {
    assert!(WafEventKind::Cluster.is_cluster_related());
    assert!(!WafEventKind::Detection.is_cluster_related());
}

fn key(k: &str, p: &[&str], active: bool) -> WafApiKey {
    WafApiKey {
        id: k.to_string(),
        key: k.to_string(),
        name: k.to_string(),
        permissions: perms(p),
        rate_limit: 10,
        created_at: 0,
        last_used_at: None,
        is_active: active,
    }
}

#[test]
fn stream_admission() {
    let keys = vec![key("a", &["stats"], true), key("b", &["read"], false)];
    assert!(matches!(admit_stream(None, None, &keys), Err(StreamRefusal::MissingKey)));
    assert!(matches!(admit_stream(Some(""), Some("a"), &keys), Err(StreamRefusal::MissingKey)));
    assert!(matches!(admit_stream(None, Some("zzz"), &keys), Err(StreamRefusal::InvalidKey)));
    assert!(matches!(admit_stream(Some("b"), None, &keys), Err(StreamRefusal::InactiveKey)));
    assert_eq!(admit_stream(Some("a"), Some("b"), &keys).unwrap(), perms(&["stats"]));
}

#[test]
fn stream_keepalive_protocol() {
    let p = perms(&["stats"]);
    let mut s = StreamState::new();
    assert_eq!(s.step(StreamInput::PingTick, &p), StreamAction::SendPing);
    assert_eq!(s.step(StreamInput::ClientPing, &p), StreamAction::SendPongFrame);
    assert_eq!(s.step(StreamInput::PingTick, &p), StreamAction::SendPing);
    assert_eq!(s.step(StreamInput::Event(WafEventKind::Block), &p), StreamAction::SendEvent);
    assert_eq!(s.step(StreamInput::Event(WafEventKind::Cluster), &p), StreamAction::Nothing);
    assert_eq!(s.step(StreamInput::ClientText { is_ping: true }, &p), StreamAction::SendPongMessage);
    assert_eq!(s.step(StreamInput::PongTimeout, &p), StreamAction::Stop);
    let mut s2 = StreamState::new();
    assert_eq!(s2.step(StreamInput::PongTimeout, &p), StreamAction::Nothing);
    s2.step(StreamInput::PingTick, &p);
    assert_eq!(s2.step(StreamInput::PingTick, &p), StreamAction::CloseAndStop);
    assert_eq!(s2.step(StreamInput::ChannelClosed, &p), StreamAction::Stop);
}

#[test]
fn stream_pong_frame_keeps_client() {
    let p = perms(&["read"]);
    let mut s = StreamState::new();
    assert_eq!(s.step(StreamInput::PingTick, &p), StreamAction::SendPing);
    assert_eq!(s.step(StreamInput::ClientPong, &p), StreamAction::Nothing);
    assert_eq!(s.step(StreamInput::PongTimeout, &p), StreamAction::Nothing);
    assert_eq!(s.step(StreamInput::PingTick, &p), StreamAction::SendPing);
}

#[test]
fn test_event_broadcaster_creation() {
    let broadcaster: EventBroadcaster<String> = EventBroadcaster::new();
    assert_eq!(broadcaster.client_count(), 0);
}

#[test]
fn test_event_broadcaster_add_remove_client() {
    let mut broadcaster: EventBroadcaster<String> = EventBroadcaster::new();
    let (client_id, _receiver) = broadcaster.add_client("test-key".to_string(), vec!["read".to_string()]);
    assert_eq!(broadcaster.client_count(), 1);
    broadcaster.remove_client(client_id);
    assert_eq!(broadcaster.client_count(), 0);
}

#[test]
fn broadcaster_delivers_to_subscribers() {
    let mut broadcaster: EventBroadcaster<String> = EventBroadcaster::new();
    let (a, mut rx_a) = broadcaster.add_client("k1".to_string(), vec!["read".to_string()]);
    let (b, mut rx_b) = broadcaster.add_client("k2".to_string(), vec!["stats".to_string()]);
    assert_ne!(a, b);
    assert_eq!(broadcaster.client_count(), 2);
    broadcaster.broadcast("hello".to_string());
    assert_eq!(rx_a.try_recv().unwrap(), "hello");
    assert_eq!(rx_b.try_recv().unwrap(), "hello");
    broadcaster.remove_client(a);
    broadcaster.remove_client(b);
    assert_eq!(broadcaster.client_count(), 0);
}
