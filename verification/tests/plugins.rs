use biubo_waf::plugins::{
    validate_plugin, DetectionRuleConfig, LogExporterConfig, PluginConfig, PluginInstance, PluginLoader, PluginMetadata,
    PluginRegistry, PluginStatus, PluginType,
};

fn meta(name: &str, t: PluginType) -> PluginMetadata {
    PluginMetadata { name: name.to_string(), version: "1.0".to_string(), description: "d".to_string(), author: "a".to_string(), plugin_type: t }
}

fn detection(patterns: &[&str], attack: &str) -> PluginConfig {
    PluginConfig::Detection(DetectionRuleConfig { patterns: patterns.iter().map(|p| p.to_string()).collect(), attack_type: attack.to_string() })
}

#[test]
fn plugins_validation() {
    assert!(validate_plugin(&meta("p", PluginType::Detection), &detection(&["x"], "xss")).is_ok());
    assert_eq!(validate_plugin(&meta("", PluginType::Detection), &detection(&["x"], "xss")), Err("Plugin name cannot be empty".to_string()));
    assert_eq!(
        validate_plugin(&meta("p", PluginType::Detection), &detection(&[], "xss")),
        Err("Detection plugin must have at least one pattern".to_string())
    );
    let exporter = PluginConfig::Exporter(LogExporterConfig { export_endpoint: String::new(), format: "json".to_string(), batch_size: 10 });
    assert_eq!(validate_plugin(&meta("e", PluginType::Exporter), &exporter), Err("Exporter plugin must specify export_endpoint".to_string()));
    assert_eq!(
        validate_plugin(&meta("e", PluginType::Exporter), &detection(&["x"], "y")),
        Err("Exporter plugin requires exporter config".to_string())
    );
}

#[test]
fn plugins_registry_lifecycle() {
    let mut r = PluginRegistry::new();
    let p = PluginInstance::new(meta("alpha", PluginType::Detection), detection(&["evil"], "custom"));
    assert!(!p.is_enabled());
    assert!(r.register(p).is_ok());
    assert_eq!(r.count(), 1);
    let again = PluginInstance::new(meta("alpha", PluginType::Detection), detection(&["x"], "y"));
    assert!(r.register(again).is_err());
    assert!(r.detection_rules().is_empty());
    assert!(r.enable("alpha").is_ok());
    assert!(matches!(r.get("alpha").unwrap().status, PluginStatus::Enabled));
    assert_eq!(r.detection_rules().len(), 1);
    assert!(r.enable("missing").is_err());
    assert!(r.disable("alpha").is_ok());
    assert!(r.detection_rules().is_empty());
    assert!(r.unregister("alpha").is_ok());
    assert_eq!(r.count(), 0);
    assert!(r.get("alpha").is_none());
}

#[test]
fn plugins_loader_timer() {
    let sec = 1_000_000_000u64;
    let mut l = PluginLoader::new("/opt/waf", 10 * sec);
    assert_eq!(l.plugin_dirs, vec!["/opt/waf/plugins/detection", "/opt/waf/plugins/exporters"]);
    assert!(!l.should_reload(39 * sec));
    assert!(l.should_reload(40 * sec));
    l.mark_scanned(40 * sec);
    assert!(!l.should_reload(41 * sec));
}

fn plugin(name: &str, t: PluginType, file: &str) -> PluginInstance {
    PluginInstance::new(meta(name, t), detection(&["p"], name)).with_file_path(file.to_string())
}

fn names_of(list: &[PluginInstance]) -> Vec<String> {
    let mut names: Vec<String> = list.iter().map(|p| p.metadata.name.clone()).collect();
    names.sort();
    names
}

#[test]
fn plugins_listings_select_each_plugin_once() {
    let mut r = PluginRegistry::new();
    assert!(r.register(plugin("a", PluginType::Detection, "a.json")).is_ok());
    assert!(r.register(plugin("b", PluginType::Exporter, "b.json")).is_ok());
    assert!(r.register(plugin("c", PluginType::Detection, "c.json")).is_ok());
    assert!(r.enable("c").is_ok());
    assert_eq!(names_of(&r.list()), vec!["a", "b", "c"]);
    assert_eq!(names_of(&r.list_by_type(&PluginType::Detection)), vec!["a", "c"]);
    assert_eq!(names_of(&r.list_by_type(&PluginType::Exporter)), vec!["b"]);
    assert_eq!(names_of(&r.list_enabled()), vec!["c"]);
}

#[test]
fn plugins_reload_replaces_same_file_and_keeps_status() {
    let mut r = PluginRegistry::new();
    assert!(r.register(plugin("a", PluginType::Detection, "a.json")).is_ok());
    assert!(r.register(plugin("b", PluginType::Detection, "b.json")).is_ok());
    assert!(r.enable("a").is_ok());
    let mut newer_a = PluginInstance::new(meta("a", PluginType::Detection), detection(&["q"], "newer"));
    newer_a = newer_a.with_file_path("a.json".to_string());
    let moved_b = plugin("b", PluginType::Detection, "elsewhere.json");
    let fresh = plugin("d", PluginType::Detection, "d.json");
    let n = r.reload(vec![newer_a, moved_b, fresh]);
    assert_eq!(n, 2);
    assert_eq!(r.count(), 3);
    let a = r.get("a").unwrap();
    assert!(matches!(a.status, PluginStatus::Enabled));
    match &a.config {
        PluginConfig::Detection(d) => assert_eq!(d.attack_type, "newer"),
        _ => panic!("detection config expected"),
    }
    assert_eq!(r.get("b").unwrap().file_path.as_deref(), Some("b.json"));
    assert!(matches!(r.get("d").unwrap().status, PluginStatus::Loaded));
}

#[test]
fn plugins_load_from_directory_counts_scanned() {
    let mut r = PluginRegistry::new();
    assert!(r.register(plugin("a", PluginType::Detection, "a.json")).is_ok());
    let loaded = r.load_from_directory(vec![
        plugin("a", PluginType::Detection, "other.json"),
        plugin("b", PluginType::Exporter, "b.json"),
        plugin("b", PluginType::Detection, "b2.json"),
    ]);
    assert_eq!(loaded, Ok(3));
    assert_eq!(names_of(&r.list()), vec!["a", "b"]);
    assert_eq!(r.get("a").unwrap().file_path.as_deref(), Some("a.json"));
    assert_eq!(r.get("b").unwrap().metadata.plugin_type, PluginType::Exporter);
}
