use biubo_waf::challenge::ChallengeStatus;
use biubo_waf::proxy::{
    check_file_security, collapse_pairs, extract_cookie_value, extract_filenames_from_multipart, find_header, inject_beacon,
    parse_cookie_header, site_mode, GateAction, GateEvent, GateStage, ProxyGate, SiteMode,
};
use biubo_waf::rate_limit::{BlockReason, RateLimitResult};

#[test]
fn proxy_cookie_value_lookup() {
    let header = " a=1 ; bw_challenge = tok|1|x ;b=2";
    assert_eq!(extract_cookie_value(header, "bw_challenge"), Some("tok|1|x".to_string()));
    assert_eq!(extract_cookie_value(header, "a"), Some("1".to_string()));
    assert_eq!(extract_cookie_value(header, "missing"), None);
    assert_eq!(extract_cookie_value("noequals; c=3", "noequals"), None);
    assert_eq!(extract_cookie_value("k=v=w", "k"), Some("v=w".to_string()));
    assert_eq!(extract_cookie_value("k=1; k=2", "k"), Some("1".to_string()));
}

#[test]
fn proxy_cookie_header_pairs() {
    let pairs = parse_cookie_header("a=1; junk; b = 2 ");
    assert_eq!(pairs, vec![("a".to_string(), "1".to_string()), ("b".to_string(), "2".to_string())]);
    assert!(parse_cookie_header("").is_empty());
}

#[test]
fn proxy_site_modes() {
    assert_eq!(site_mode("off"), SiteMode::Off);
    assert_eq!(site_mode("pass"), SiteMode::Pass);
    assert_eq!(site_mode("on"), SiteMode::On);
    assert_eq!(site_mode("log"), SiteMode::Monitor);
}

fn arrive(g: &mut ProxyGate, mode: SiteMode, whitelisted: bool) -> GateAction {
    g.step(GateEvent::Arrived {
        known_host: true,
        initialized: true,
        init_path: false,
        static_resource: false,
        mode,
        whitelisted,
    })
}

#[test]
fn proxy_gate_clean_request_is_forwarded() {
    let mut g = ProxyGate::new();
    assert_eq!(arrive(&mut g, SiteMode::On, false), GateAction::CheckRateLimit);
    assert_eq!(g.step(GateEvent::RateChecked(RateLimitResult { blocked: false, reason: None })), GateAction::QueryReputation);
    assert_eq!(g.step(GateEvent::ReputationChecked(true)), GateAction::CheckUpload);
    assert_eq!(g.step(GateEvent::UploadChecked { safe: true, reason: String::new() }), GateAction::Detect);
    assert_eq!(g.step(GateEvent::Detected { normal: true }), GateAction::Forward { log_threat: false, log_result: true });
    assert_eq!(g.stage, GateStage::Done);
    assert_eq!(g.step(GateEvent::Detected { normal: false }), GateAction::Ignore);
}

#[test]
fn proxy_gate_blocks_attack_when_on_and_logs_in_monitor() {
    let mut g = ProxyGate::new();
    arrive(&mut g, SiteMode::On, false);
    g.step(GateEvent::RateChecked(RateLimitResult { blocked: false, reason: None }));
    g.step(GateEvent::ReputationChecked(true));
    g.step(GateEvent::UploadChecked { safe: true, reason: String::new() });
    assert_eq!(g.step(GateEvent::Detected { normal: false }), GateAction::LogThreatAndForbid);

    let mut m = ProxyGate::new();
    arrive(&mut m, SiteMode::Monitor, false);
    m.step(GateEvent::RateChecked(RateLimitResult { blocked: false, reason: None }));
    m.step(GateEvent::ReputationChecked(true));
    m.step(GateEvent::UploadChecked { safe: true, reason: String::new() });
    assert_eq!(m.step(GateEvent::Detected { normal: false }), GateAction::Forward { log_threat: true, log_result: true });
}

#[test]
fn proxy_gate_arrival_shortcuts() {
    let mut g = ProxyGate::new();
    assert_eq!(arrive(&mut g, SiteMode::Off, false), GateAction::NotFound);
    let mut g = ProxyGate::new();
    assert_eq!(arrive(&mut g, SiteMode::Pass, false), GateAction::Forward { log_threat: false, log_result: false });
    let mut g = ProxyGate::new();
    assert_eq!(arrive(&mut g, SiteMode::On, true), GateAction::Forward { log_threat: false, log_result: true });
    let mut g = ProxyGate::new();
    let a = g.step(GateEvent::Arrived { known_host: false, initialized: true, init_path: false, static_resource: false, mode: SiteMode::On, whitelisted: false });
    assert_eq!(a, GateAction::NotFound);
    let mut g = ProxyGate::new();
    let a = g.step(GateEvent::Arrived { known_host: true, initialized: false, init_path: false, static_resource: false, mode: SiteMode::On, whitelisted: false });
    assert_eq!(a, GateAction::RedirectToInit);
}

#[test]
fn proxy_gate_rate_limited_paths() {
    let limited = RateLimitResult { blocked: true, reason: Some(BlockReason::RateLimit) };
    let mut g = ProxyGate::new();
    arrive(&mut g, SiteMode::On, false);
    assert_eq!(g.step(GateEvent::RateChecked(limited)), GateAction::VerifyChallenge);
    assert_eq!(
        g.step(GateEvent::ChallengeChecked(ChallengeStatus::Invalid)),
        GateAction::BanAndForbid("forged_challenge_token".to_string())
    );

    let mut g = ProxyGate::new();
    arrive(&mut g, SiteMode::On, false);
    g.step(GateEvent::RateChecked(limited));
    assert_eq!(g.step(GateEvent::ChallengeChecked(ChallengeStatus::Missing)), GateAction::LookUpBan);
    assert_eq!(g.step(GateEvent::BanChecked { banned: false, temporary: false, captcha_cookie: false, strikes: 3 }),
        GateAction::TemporaryBanAndCaptcha("rate_limit".to_string()));

    let mut g = ProxyGate::new();
    arrive(&mut g, SiteMode::On, false);
    g.step(GateEvent::RateChecked(limited));
    g.step(GateEvent::ChallengeChecked(ChallengeStatus::Expired));
    assert_eq!(g.step(GateEvent::BanChecked { banned: false, temporary: false, captcha_cookie: false, strikes: 2 }), GateAction::Challenge);

    let mut g = ProxyGate::new();
    arrive(&mut g, SiteMode::On, false);
    g.step(GateEvent::RateChecked(limited));
    g.step(GateEvent::ChallengeChecked(ChallengeStatus::Missing));
    assert_eq!(g.step(GateEvent::BanChecked { banned: true, temporary: true, captcha_cookie: false, strikes: 0 }), GateAction::Captcha);

    let mut g = ProxyGate::new();
    arrive(&mut g, SiteMode::On, false);
    g.step(GateEvent::RateChecked(limited));
    assert_eq!(g.step(GateEvent::ChallengeChecked(ChallengeStatus::Valid)), GateAction::QueryReputation);
    assert_eq!(g.step(GateEvent::ReputationChecked(false)), GateAction::BanAndForbid("bad_ip_reputation".to_string()));
}

fn headers(ct: &str) -> Vec<(String, String)> {
    vec![("content-type".to_string(), ct.to_string())]
}

#[test]
fn proxy_upload_checks() {
    let allowed = vec!["png".to_string(), "jpg".to_string()];
    assert_eq!(check_file_security(b"0123456789", &headers("text/plain"), 5, &allowed), (false, "upload_size_exceeded".to_string()));
    assert_eq!(check_file_security(b"abc", &headers("text/plain"), 5, &allowed), (true, String::new()));
    let body = b"--x\r\nContent-Disposition: form-data; name=\"f\"; filename=\"evil.PHP\"\r\n\r\n<?php ?>\r\n--x--";
    assert_eq!(
        check_file_security(body, &headers("multipart/form-data; boundary=x"), 1000, &allowed),
        (false, "forbidden_extension:php".to_string())
    );
    let ok = b"--x\r\nContent-Disposition: form-data; name=\"f\"; filename=\"cat.PNG\"\r\n\r\n...\r\n--x--";
    assert_eq!(check_file_security(ok, &headers("multipart/form-data; boundary=x"), 1000, &allowed), (true, String::new()));
    let noext = b"filename=\"README\"";
    assert_eq!(check_file_security(noext, &headers("multipart/form-data"), 1000, &allowed), (true, String::new()));
}

#[test]
fn proxy_multipart_filenames() {
    let names = extract_filenames_from_multipart("filename=\"a.txt\" x filename=\"b.png\" filename=\"\"");
    assert_eq!(names, vec!["a.txt".to_string(), "b.png".to_string()]);
    assert_eq!(find_header(&headers("x"), "content-type"), Some("x".to_string()));
    assert_eq!(find_header(&headers("x"), "Content-Type"), None);
}

#[test]
fn proxy_beacon_injection() {
    let page = b"<html><body><p>hi</p></body></html>";
    let out = inject_beacon(page, "req-1");
    assert_eq!(
        String::from_utf8(out).unwrap(),
        "<html><body><p>hi</p><script src=\"/biubo-cgi/scripts/biubo/beacon.js\" data-request-id=\"req-1\"></script></body></html>"
    );
    assert_eq!(inject_beacon(b"plain text", "r"), b"plain text".to_vec());
    assert_eq!(inject_beacon(b"<body> unclosed", "r"), b"<body> unclosed".to_vec());
    let twice = inject_beacon(b"<body></body>x</body>", "r");
    assert!(String::from_utf8(twice).unwrap().ends_with("</body>x<script src=\"/biubo-cgi/scripts/biubo/beacon.js\" data-request-id=\"r\"></script></body>"));
}

#[test]
fn duplicate_names_keep_the_last_value() {
    let pairs = vec![
        ("accept".to_string(), "a".to_string()),
        ("x-real-ip".to_string(), "1.1.1.1".to_string()),
        ("accept".to_string(), "b".to_string()),
    ];
    assert_eq!(find_header(&pairs, "accept"), Some("b".to_string()));
    let c = collapse_pairs(&pairs);
    assert_eq!(c.len(), 2);
    assert_eq!(find_header(&c, "accept"), Some("b".to_string()));
    assert_eq!(find_header(&c, "x-real-ip"), Some("1.1.1.1".to_string()));
    assert_eq!(c.iter().filter(|(k, _)| k == "accept").count(), 1);
}
