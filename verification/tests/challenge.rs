use biubo_waf::challenge::{
    challenge_token_at, current_time_window, get_challenge_token, nonce_from, ChallengeStatus, UsedTokens, NONCE_LENGTH,
};

#[test]
fn test_token_generation_and_verification() {
    let ip = "192.168.1.1";
    let user_agent = "Mozilla/5.0";
    let secret = "test_secret_key";
    let mut used = UsedTokens::new();

    let token = get_challenge_token(ip, user_agent, secret);
    let parts: Vec<&str> = token.split('|').collect();
    assert_eq!(parts.len(), 3);
    assert_eq!(parts[1].len(), NONCE_LENGTH);

    let status = used.verify(Some(&token), ip, user_agent, secret);
    assert_eq!(status, ChallengeStatus::Valid);
}

#[test]
fn test_token_replay_detection() {
    let ip = "192.168.1.1";
    let user_agent = "Mozilla/5.0";
    let secret = "test_secret_key";
    let mut used = UsedTokens::new();

    let token = get_challenge_token(ip, user_agent, secret);
    let status1 = used.verify(Some(&token), ip, user_agent, secret);
    assert_eq!(status1, ChallengeStatus::Valid);
    let status2 = used.verify(Some(&token), ip, user_agent, secret);
    assert_eq!(status2, ChallengeStatus::Replayed);
}

#[test]
fn test_invalid_token_format() {
    let mut used = UsedTokens::new();
    let status = used.verify(Some("invalid"), "ip", "ua", "secret");
    assert_eq!(status, ChallengeStatus::Invalid);
    let status = used.verify(Some("a|b"), "ip", "ua", "secret");
    assert_eq!(status, ChallengeStatus::Invalid);
}

#[test]
fn test_missing_token() {
    let mut used = UsedTokens::new();
    let status = used.verify(None, "ip", "ua", "secret");
    assert_eq!(status, ChallengeStatus::Missing);
    let status = used.verify(Some(""), "ip", "ua", "secret");
    assert_eq!(status, ChallengeStatus::Missing);
}

#[test]
fn challenge_token_has_exact_layout() {
    let tok = challenge_token_at("1.2.3.4", "ua", "k", 42, "0123456789abcdef");
    let parts: Vec<&str> = tok.split('|').collect();
    assert_eq!(parts[0], "42");
    assert_eq!(parts[1], "0123456789abcdef");
    assert_eq!(parts[2].len(), 64);
    assert!(parts[2].chars().all(|c| c.is_ascii_hexdigit() && !c.is_ascii_uppercase()));
    // the signature depends on the secret and the client
    let other = challenge_token_at("1.2.3.4", "ua", "other", 42, "0123456789abcdef");
    assert_ne!(tok, other);
}

#[test]
fn challenge_token_from_other_client_is_invalid() {
    let mut used = UsedTokens::new();
    let token = get_challenge_token("10.0.0.1", "ua", "secret");
    assert_eq!(used.verify(Some(&token), "10.0.0.2", "ua", "secret"), ChallengeStatus::Invalid);
    assert_eq!(used.verify(Some(&token), "10.0.0.1", "ua", "wrong"), ChallengeStatus::Invalid);
}

#[test]
fn challenge_old_window_expires() {
    let mut used = UsedTokens::new();
    let now: u64 = 1000 * 300 * 1_000_000_000;
    let old = challenge_token_at("ip", "ua", "s", 998, "0123456789abcdef");
    assert_eq!(used.verify_at(Some(&old), "ip", "ua", "s", now), ChallengeStatus::Expired);
    let prev = challenge_token_at("ip", "ua", "s", 999, "0123456789abcdef");
    assert_eq!(used.verify_at(Some(&prev), "ip", "ua", "s", now), ChallengeStatus::Valid);
    let cur = challenge_token_at("ip", "ua", "s", 1000, "0123456789abcdef");
    assert_eq!(used.verify_at(Some(&cur), "ip", "ua", "s", now), ChallengeStatus::Valid);
    assert_eq!(used.verify_at(Some(&cur), "ip", "ua", "s", now), ChallengeStatus::Replayed);
    assert_eq!(used.len(), 2);
    // after the reuse window the token is no longer remembered
    let later = now + 601 * 1_000_000_000;
    used.cleanup(later);
    assert_eq!(used.len(), 0);
}

#[test]
fn challenge_current_window_is_clock_based() {
    assert!(current_time_window() > 5_000_000);
}

#[test]
fn nonces_follow_their_inputs() {
    let a = nonce_from(&[7u8; 16], 123);
    assert_eq!(a, nonce_from(&[7u8; 16], 123));
    assert_ne!(a, nonce_from(&[7u8; 16], 124));
    assert_eq!(a.len(), 16);
    assert!(a.chars().all(|c| c.is_ascii_digit() || ('a'..='f').contains(&c)));
}
