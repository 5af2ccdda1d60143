use biubo_waf::cluster::{discovered_node, discovery_message, ClusterManager, ClusterStatus};
use biubo_waf::models::{ClusterNode, ClusterRole};

const NOW: i64 = 1_700_000_000;

fn node(id: &str, role: ClusterRole, ip: &str, status: &str, heard: i64, uptime: u64) -> ClusterNode {
    ClusterNode {
        id: id.to_string(),
        role,
        ip: ip.to_string(),
        status: status.to_string(),
        last_heartbeat: heard,
        uptime_seconds: uptime,
    }
}

fn worker_manager() -> ClusterManager {
    ClusterManager::with_id("self-node".to_string(), ClusterRole::Worker, NOW)
}

fn role_of(m: &ClusterManager, id: &str) -> Option<ClusterRole> {
    m.node_record(id).map(|e| e.node.role)
}

#[test]
fn test_node_registration() {
    let mut manager = worker_manager();
    assert!(manager.register_node(node("node-1", ClusterRole::Worker, "192.168.1.100", "online", NOW, 100), NOW));
    assert_eq!(manager.get_node_count(), 2);
    assert!(manager.register_node(node("node-2", ClusterRole::Secondary, "192.168.1.101", "online", NOW, 200), NOW));
    assert_eq!(manager.get_node_count(), 3);
    assert!(manager.unregister_node("node-1".to_string()));
    assert_eq!(manager.get_node_count(), 2);
    assert!(!manager.unregister_node("non-existent".to_string()));
}

#[test]
fn test_heartbeat_and_dead_node_detection() {
    let mut manager = worker_manager();
    manager.register_node(node("old-node", ClusterRole::Worker, "192.168.1.200", "online", NOW - 45, 1000), NOW);
    let dead = manager.detect_dead_nodes(NOW);
    assert!(dead.contains(&"old-node".to_string()));
    manager.register_node(node("fresh-node", ClusterRole::Worker, "192.168.1.201", "online", NOW, 500), NOW);
    let dead = manager.detect_dead_nodes(NOW);
    assert!(dead.contains(&"old-node".to_string()));
    assert!(!dead.contains(&"fresh-node".to_string()));
}

#[test]
fn test_primary_election() {
    let mut manager = worker_manager();
    manager.register_node(node("candidate-1", ClusterRole::Secondary, "192.168.1.50", "online", NOW, 5000), NOW);
    manager.register_node(node("candidate-2", ClusterRole::Secondary, "192.168.1.51", "online", NOW, 3000), NOW);
    let elected = manager.elect_primary();
    assert!(elected.is_some());
    let primary = manager.get_primary_node();
    assert!(primary.is_some());
    assert_eq!(primary.unwrap(), "candidate-1".to_string());
    assert_eq!(role_of(&manager, "candidate-1"), Some(ClusterRole::Primary));
    assert_eq!(role_of(&manager, "candidate-2"), Some(ClusterRole::Secondary));
}

#[test]
fn test_primary_failover() {
    let mut manager = worker_manager();
    manager.register_node(node("primary-node", ClusterRole::Primary, "192.168.1.10", "online", NOW, 10000), NOW);
    manager.register_node(node("secondary-node", ClusterRole::Secondary, "192.168.1.11", "online", NOW, 8000), NOW);
    assert!(manager.get_primary_node().is_some());
    assert!(manager.demote_primary("primary-node".to_string()));
    assert_eq!(role_of(&manager, "primary-node"), Some(ClusterRole::Secondary));
    let new_primary = manager.promote_secondary();
    assert!(new_primary.is_some());
    assert_eq!(new_primary.unwrap(), "secondary-node".to_string());
    assert_eq!(role_of(&manager, "secondary-node"), Some(ClusterRole::Primary));
}

#[test]
fn test_automatic_failover_on_dead_primary() {
    let mut manager = worker_manager();
    manager.register_node(node("dead-primary", ClusterRole::Primary, "192.168.1.20", "online", NOW - 60, 20000), NOW);
    manager.register_node(node("available-secondary", ClusterRole::Secondary, "192.168.1.21", "online", NOW, 15000), NOW);
    let dead = manager.detect_dead_nodes(NOW);
    assert!(dead.contains(&"dead-primary".to_string()));
    if let Some(primary_id) = manager.get_primary_node() {
        if dead.contains(&primary_id) {
            manager.demote_primary(primary_id);
            let new_primary = manager.promote_secondary();
            assert!(new_primary.is_some());
            assert_eq!(new_primary.unwrap(), "available-secondary".to_string());
        }
    }
}

#[test]
fn test_heartbeat_sending() {
    let mut manager = worker_manager();
    let before = manager.heartbeat_counter;
    manager.send_heartbeat(NOW + 12);
    assert_eq!(manager.heartbeat_counter, before + 1);
    let entry = manager.node_record("self-node").unwrap();
    assert_eq!(entry.node.uptime_seconds, 12);
    assert_eq!(entry.last_heartbeat, NOW + 12);
}

#[test]
fn test_receive_heartbeat() {
    let mut manager = worker_manager();
    manager.receive_heartbeat("remote-node".to_string(), ClusterRole::Worker, "10.0.0.1".to_string(), 500, NOW);
    assert!(manager.get_node_count() >= 2);
    let entry = manager.node_record("remote-node").unwrap();
    assert_eq!(entry.node.ip, "10.0.0.1");
    assert_eq!(entry.node.role, ClusterRole::Worker);
}

#[test]
fn test_cluster_status_transitions() {
    let mut manager = worker_manager();
    assert_eq!(manager.get_status(), ClusterStatus::Initializing);
    manager.register_node(node("worker-1", ClusterRole::Worker, "172.16.0.1", "online", NOW, 100), NOW);
    manager.elect_primary();
    assert_eq!(manager.get_status(), ClusterStatus::Running);
}

#[test]
fn test_get_active_nodes() {
    let mut manager = worker_manager();
    manager.register_node(node("online-1", ClusterRole::Worker, "192.168.2.1", "online", NOW, 300), NOW);
    manager.register_node(node("dead-1", ClusterRole::Worker, "192.168.2.2", "dead", NOW - 100, 50), NOW);
    let active = manager.get_active_nodes();
    assert!(active.iter().any(|n| n.id == "online-1"));
    assert!(!active.iter().any(|n| n.id == "dead-1"));
}

#[test]
fn cluster_own_node_is_protected() {
    let mut manager = worker_manager();
    assert!(!manager.register_node(node("self-node", ClusterRole::Primary, "1.1.1.1", "online", NOW, 1), NOW));
    assert!(!manager.unregister_node("self-node".to_string()));
    assert_eq!(manager.get_node_count(), 1);
    assert_eq!(role_of(&manager, "self-node"), Some(ClusterRole::Worker));
}

#[test]
fn cluster_election_without_candidates_picks_self() {
    let mut manager = worker_manager();
    manager.register_node(node("w", ClusterRole::Worker, "10.0.0.9", "online", NOW, 9999), NOW);
    assert_eq!(manager.elect_primary(), Some("self-node".to_string()));
    assert_eq!(role_of(&manager, "self-node"), Some(ClusterRole::Primary));
    assert_eq!(role_of(&manager, "w"), Some(ClusterRole::Worker));
}

#[test]
fn cluster_election_demotes_other_primaries() {
    let mut manager = worker_manager();
    manager.register_node(node("p-old", ClusterRole::Primary, "10.0.0.1", "online", NOW, 10), NOW);
    manager.register_node(node("s-long", ClusterRole::Secondary, "10.0.0.2", "online", NOW, 900), NOW);
    manager.register_node(node("p-dead", ClusterRole::Primary, "10.0.0.3", "dead", NOW, 5000), NOW);
    assert_eq!(manager.elect_primary(), Some("s-long".to_string()));
    assert_eq!(role_of(&manager, "s-long"), Some(ClusterRole::Primary));
    assert_eq!(role_of(&manager, "p-old"), Some(ClusterRole::Secondary));
    assert_eq!(role_of(&manager, "p-dead"), Some(ClusterRole::Secondary));
}

#[test]
fn cluster_demote_refuses_non_primary() {
    let mut manager = worker_manager();
    manager.register_node(node("s", ClusterRole::Secondary, "10.0.0.2", "online", NOW, 1), NOW);
    assert!(!manager.demote_primary("s".to_string()));
    assert!(!manager.demote_primary("missing".to_string()));
}

#[test]
fn cluster_degraded_when_dead_and_no_primary() {
    let mut manager = worker_manager();
    manager.register_node(node("gone", ClusterRole::Worker, "10.0.0.5", "online", NOW - 31, 1), NOW);
    manager.register_node(node("edge", ClusterRole::Worker, "10.0.0.6", "online", NOW - 30, 1), NOW);
    let dead = manager.detect_dead_nodes(NOW);
    assert_eq!(dead, vec!["gone".to_string()]);
    assert_eq!(manager.node_record("gone").unwrap().node.status, "dead");
    assert_eq!(manager.get_status(), ClusterStatus::Degraded);
}

#[test]
fn cluster_dead_node_check_forgets_dead_nodes() {
    let mut manager = worker_manager();
    manager.register_node(node("gone", ClusterRole::Primary, "10.0.0.5", "online", NOW - 100, 1), NOW);
    manager.register_node(node("alive", ClusterRole::Secondary, "10.0.0.6", "online", NOW, 1), NOW);
    let dead = manager.dead_node_check(NOW);
    assert_eq!(dead, vec!["gone".to_string()]);
    assert!(manager.node_record("gone").is_none());
    assert_eq!(manager.get_node_count(), 2);
    assert_eq!(manager.get_status(), ClusterStatus::Degraded);
}

#[test]
fn cluster_nodes_info_marks_dead_and_primary() {
    let mut manager = worker_manager();
    manager.register_node(node("a", ClusterRole::Primary, "10.0.0.1", "online", NOW, 7), NOW);
    let infos = manager.get_all_nodes_info(&vec!["self-node".to_string()], &Some("a".to_string()));
    assert_eq!(infos.len(), 2);
    let a = infos.iter().find(|i| i.id == "a").unwrap();
    assert!(a.is_primary);
    assert_eq!(a.status, "online");
    assert_eq!(a.uptime_seconds, 7);
    let me = infos.iter().find(|i| i.id == "self-node").unwrap();
    assert!(!me.is_primary);
    assert_eq!(me.status, "dead");
    assert_eq!(me.ip, "127.0.0.1");
}

#[test]
fn cluster_messages() {
    let manager = worker_manager();
    assert_eq!(discovery_message("abc"), "BIUBO:abc:9527");
    assert_eq!(manager.heartbeat_message(NOW + 5), "BIUBO:HB:self-node:worker:self-node:5");
    assert_eq!(manager.heartbeat_message(NOW - 3), "BIUBO:HB:self-node:worker:self-node:-3");
    assert_eq!(manager.get_uptime_seconds(NOW + 42), 42);
    let n = discovered_node("BIUBO:peer-7:9527", "self-node", "10.1.1.1".to_string(), NOW).unwrap();
    assert_eq!(n.id, "peer-7");
    assert_eq!(n.status, "discovered");
    assert_eq!(n.role, ClusterRole::Worker);
    assert!(discovered_node("BIUBO:self-node:9527", "self-node", "x".to_string(), NOW).is_none());
    assert!(discovered_node("HELLO:peer:1", "self-node", "x".to_string(), NOW).is_none());
    assert!(discovered_node("BIUBO:peer", "self-node", "x".to_string(), NOW).is_none());
}
