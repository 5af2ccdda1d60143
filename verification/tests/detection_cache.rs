use biubo_waf::detection_cache::{DetectionCache, EVICTION_BATCH, MAX_CACHE_ENTRIES};
use biubo_waf::waf_engine::{parse_reply, DetectionResult};

const SEC: u64 = 1_000_000_000;

#[test]
fn unparsable_reply_is_normal_and_not_cached() {
    let mut c = DetectionCache::new();
    let d = c.settle_reply(Some("k1".to_string()), "I think this request is fine.", 5 * SEC);
    assert_eq!(d.detection_type, "normal");
    assert!(d.attack_types.is_empty());
    assert_eq!(c.len(), 0);
    assert!(c.get("k1").is_none());
    let d = c.settle_reply(Some("k1".to_string()), "{\"type\":\"normal\"}", 5 * SEC);
    assert_eq!(d.detection_type, "normal");
    assert_eq!(c.len(), 0);
}

#[test]
fn parsed_reply_is_cached_with_its_time() {
    let mut c = DetectionCache::new();
    let d = c.settle_reply(
        Some("k2".to_string()),
        "Result: {\"type\":\"hacker\",\"attack_types\":[\"xss\",\"scanner\"]} done",
        7 * SEC,
    );
    assert_eq!(d.detection_type, "hacker");
    assert_eq!(d.attack_types, vec!["xss".to_string(), "scanner".to_string()]);
    let (cached, at) = c.get("k2").unwrap();
    assert_eq!(cached.detection_type, "hacker");
    assert_eq!(cached.attack_types, vec!["xss".to_string(), "scanner".to_string()]);
    assert_eq!(at, 7 * SEC);
    let d = c.settle_reply(None, "{\"type\":\"normal\",\"attack_types\":[]}", 8 * SEC);
    assert_eq!(d.detection_type, "normal");
    assert_eq!(c.len(), 1);
}

#[test]
fn parse_reply_tells_replies_apart() {
    assert!(parse_reply("no json here").is_none());
    assert!(parse_reply("{\"type\":\"hacker\"}").is_none());
    assert!(parse_reply("{\"type\":\"hacker\",\"attack_types\":[1]}").is_none());
    let d = parse_reply("  {\"type\":\"hacker\",\"attack_types\":[\"rce\"]}  ").unwrap();
    assert_eq!(d.detection_type, "hacker");
    assert_eq!(d.attack_types, vec!["rce".to_string()]);
    let d = parse_reply("[\"hacker\",[\"xss\",\"csrf\"]]").unwrap();
    assert_eq!(d.detection_type, "hacker");
    assert_eq!(d.attack_types, vec!["xss".to_string(), "csrf".to_string()]);
    assert!(parse_reply("[\"hacker\",[\"xss\"],1]").is_none());
    assert!(parse_reply("[\"hacker\"]").is_none());
}

#[test]
fn full_cache_sheds_a_batch() {
    let mut c = DetectionCache::new();
    for i in 0..MAX_CACHE_ENTRIES {
        c.store(format!("key{}", i), DetectionResult::normal(), SEC);
    }
    assert_eq!(c.len(), MAX_CACHE_ENTRIES);
    c.store("newest".to_string(), DetectionResult::error(), 2 * SEC);
    assert_eq!(c.len(), MAX_CACHE_ENTRIES - EVICTION_BATCH + 1);
    let (d, at) = c.get("newest").unwrap();
    assert_eq!(d.detection_type, "error");
    assert_eq!(at, 2 * SEC);
}

#[test]
fn cleanup_keeps_fresh_verdicts() {
    let mut c = DetectionCache::new();
    c.store("old".to_string(), DetectionResult::normal(), 10 * SEC);
    c.store("new".to_string(), DetectionResult::normal(), 100 * SEC);
    c.cleanup(105 * SEC, 60);
    assert!(c.get("old").is_none());
    assert!(c.get("new").is_some());
    assert_eq!(c.len(), 1);
}
