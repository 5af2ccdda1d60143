use biubo_waf::waf_engine::{cache_key, detect_before_llm, optimize_for_llm, parse_body, detection_cache_key, detection_from_reply, is_static_resource, DetectionResult};

fn exts() -> Vec<String> {
    vec![".js".to_string(), ".css".to_string()]
}

fn run(url: &str, body: &[u8], rules: &Vec<(String, Vec<String>)>, cached: Option<(DetectionResult, u64)>, llm: bool)
    -> Result<DetectionResult, String> {
    detect_before_llm(url, "GET", &vec![], &vec![], "{}", "{}", body, "text/plain", "{}", &exts(), rules, cached,
        100_000_000_000, 60, llm, "")
}

#[test]
fn static_resources_are_normal() {
    assert!(is_static_resource("/app/Main.JS?v=3", &exts()));
    assert!(!is_static_resource("/app/main.js.php", &exts()));
    assert!(!is_static_resource("/x?file=a.js", &exts()));
    let rules = vec![("xss".to_string(), vec!["script".to_string()])];
    let d = run("/script.js", b"<script>", &rules, None, true).unwrap();
    assert_eq!(d.detection_type, "normal");
}

#[test]
fn detection_before_the_model() {
    let rules = vec![("xss".to_string(), vec!["<script".to_string()])];
    let d = run("/page", b"<SCRIPT>alert(1)", &rules, None, true).unwrap();
    assert_eq!(d.detection_type, "hacker");
    assert_eq!(d.attack_types, vec!["xss".to_string()]);
    let long = format!("/{}", "a".repeat(2001));
    let d = run(&long, b"", &rules, None, true).unwrap();
    assert_eq!(d.attack_types, vec!["buffer_overflow".to_string()]);
    let fresh = (DetectionResult::hacker(vec!["sqli".to_string()]), 90_000_000_000u64);
    let d = run("/page", b"ok", &rules, Some(fresh), true).unwrap();
    assert_eq!(d.attack_types, vec!["sqli".to_string()]);
    let stale = (DetectionResult::hacker(vec!["sqli".to_string()]), 1_000_000_000u64);
    let prompt = run("/page", b"ok", &rules, Some(stale), true).unwrap_err();
    assert!(prompt.contains("## Current Request\n- URL: /page\n- Method: GET"));
    assert!(prompt.contains("- Body: ok|{}"));
    let d = run("/page", b"ok", &rules, None, false).unwrap();
    assert_eq!(d.detection_type, "normal");
}

#[test]
fn model_replies_read_as_verdicts() {
    let d = detection_from_reply("{\"type\":\"hacker\",\"attack_types\":[\"sql_injection\",\"scanner\"]}");
    assert_eq!(d.detection_type, "hacker");
    assert_eq!(d.attack_types, vec!["sql_injection".to_string(), "scanner".to_string()]);
    let d = detection_from_reply("Here:\n```json\n{\"type\":\"hacker\",\"attack_types\":[\"xss\"]}\n```");
    assert_eq!(d.attack_types, vec!["xss".to_string()]);
    assert_eq!(detection_from_reply("{\"type\":\"normal\"}").detection_type, "normal");
    assert_eq!(detection_from_reply("{\"type\":\"hacker\",\"attack_types\":[1]}").detection_type, "normal");
    assert_eq!(detection_from_reply("no verdict").detection_type, "normal");
}

#[test]
fn cache_keys_follow_url_and_data() {
    let a = cache_key("/a", "x");
    assert_eq!(a, cache_key("/a", "x"));
    assert_eq!(a.len(), 20);
    assert!(a.starts_with("waf:"));
    assert_ne!(a, cache_key("/a", "y"));
    assert_eq!(detection_cache_key("/a", b"x", "text/plain", "{}"), cache_key("/a", "x|{}"));
}

#[test]
fn prompt_text_compresses_padding() {
    let padded = format!("x{}y", "a".repeat(100));
    assert_eq!(optimize_for_llm(&padded, 1024), "xaaa...<Repeated Padding Removed>y");
    assert_eq!(optimize_for_llm(&"a".repeat(64), 1024), "a".repeat(64));
    assert_eq!(optimize_for_llm(&"\n".repeat(100), 1024), "\n".repeat(100));
    assert_eq!(optimize_for_llm("abc", 3), "abc");
    assert_eq!(optimize_for_llm(&"é".repeat(10), 5), "éé...<Hard Truncated>");
    assert_eq!(optimize_for_llm("abcdef", 4), "abcd...<Hard Truncated>");
}

#[test]
fn multipart_file_content_is_cut() {
    let head = "--x\r\nContent-Disposition: form-data; name=\"f\"; FILENAME=\"a.bin\"\r\n\r\n";
    let body = format!("{}{}\r\n--x--\r\n", head, "A".repeat(100));
    let expected = format!("{}{}\n...<Binary File Truncated>\n\r\n--x--\r\n", head, "A".repeat(64));
    assert_eq!(parse_body(body.as_bytes(), "multipart/form-data; boundary=x"), expected);
    let short = format!("{}{}\r\n--x--\r\n", head, "A".repeat(10));
    assert_eq!(parse_body(short.as_bytes(), "multipart/form-data; boundary=x"), short);
    let typed = format!(
        "--x\r\nContent-Disposition: form-data; name=\"f\"; filename=\"a.bin\"\r\nContent-Type: image/png\r\n\r\n{}\r\n--x--\r\n",
        "B".repeat(100)
    );
    assert_eq!(parse_body(typed.as_bytes(), "multipart/form-data; boundary=x"), typed);
}
