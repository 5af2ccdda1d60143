use biubo_waf::settings::{generate_random_password, password_from, Settings};
use biubo_waf::setup::{apply_setup, SetupError, SetupRequest};
use biubo_waf::storage::{BanEntry, Blacklist, BlacklistEntry, ExpireValue};

fn settings() -> Settings {
    Settings::defaults("/srv", "pw".to_string(), "secret".to_string())
}

fn request(password: Option<&str>, map: Option<Vec<(&str, &str)>>) -> SetupRequest {
    SetupRequest {
        password: password.map(|p| p.to_string()),
        proxy_map: map.map(|m| m.into_iter().map(|(a, b)| (a.to_string(), b.to_string())).collect()),
        waf_port: Some(9000),
        api_key: None,
        llm_base_url: None,
        llm_model: Some("m".to_string()),
    }
}

#[test]
fn setup_refusals_in_order() {
    let mut s = settings();
    let mut token = "tok".to_string();
    let ok_map = Some(vec![("a.com", "http://127.0.0.1:3000")]);
    assert_eq!(apply_setup(&mut s, &mut token, None, request(Some("p"), ok_map.clone())), Err(SetupError::MissingToken));
    assert_eq!(apply_setup(&mut s, &mut token, Some("bad"), request(Some("p"), ok_map.clone())), Err(SetupError::InvalidToken));
    assert_eq!(apply_setup(&mut s, &mut token, Some("tok"), request(Some(""), ok_map.clone())), Err(SetupError::MissingPassword));
    assert_eq!(apply_setup(&mut s, &mut token, Some("tok"), request(Some("p"), Some(vec![]))), Err(SetupError::InvalidProxyMap));
    assert_eq!(SetupError::InvalidProxyMap.message(), "Invalid proxy map format");
    assert_eq!(apply_setup(&mut s, &mut token, Some("tok"), request(Some("p"), ok_map.clone())), Ok(()));
    assert_eq!(s.dashboard_password, "p");
    assert_eq!(s.waf_port, 9000);
    assert_eq!(s.llm_model, "m");
    assert!(token.is_empty());
    assert_eq!(apply_setup(&mut s, &mut token, Some("tok"), request(Some("p"), ok_map)), Err(SetupError::AlreadyInitialized));
    let mut fresh = settings();
    let mut used = String::new();
    assert_eq!(
        apply_setup(&mut fresh, &mut used, Some("tok"), request(Some("p"), Some(vec![("a", "b")]))),
        Err(SetupError::TokenUsed)
    );
}

#[test]
fn passwords_are_sixteen_hex_digits() {
    assert_eq!(password_from(&[0u8; 16], 1_700_000_000), password_from(&[0u8; 16], 1_700_000_000));
    assert_ne!(password_from(&[0u8; 16], 1), password_from(&[0u8; 16], 2));
    let p = generate_random_password();
    assert_eq!(p.len(), 16);
    assert!(p.chars().all(|c| c.is_ascii_hexdigit()));
}

#[test]
fn expired_bans_are_removed_when_checked() {
    let mut b = Blacklist::new();
    let entry = |expire, at: &str| BlacklistEntry { reason: "r".to_string(), ban: BanEntry { expire, added_at: Some(at.to_string()) } };
    b.insert("1.1.1.1".to_string(), entry(ExpireValue::Minutes(1), "1970-01-01T00:00:00Z"));
    b.insert("2.2.2.2".to_string(), entry(ExpireValue::Null, "1970-01-01T00:00:00Z"));
    b.insert("3.3.3.3".to_string(), entry(ExpireValue::Flag(true), "1970-01-01T00:00:00Z"));
    assert!(b.is_banned("1.1.1.1", 59_000_000_000));
    assert!(!b.is_banned("1.1.1.1", 60_000_000_000));
    assert!(b.get("1.1.1.1").is_none());
    assert!(b.is_banned("2.2.2.2", u64::MAX));
    assert!(b.is_temporary_banned("3.3.3.3"));
    assert!(!b.is_banned("9.9.9.9", 0));
    assert!(b.remove("2.2.2.2"));
    assert_eq!(b.records().len(), 1);
}
