//! First-run setup: the checks on a setup request and the settings it
//! writes.
use vstd::prelude::*;
use crate::auth::constant_time_compare;
use crate::settings::Settings;
use crate::text::owned_text;

verus! {

/// What the setup form sends.
#[derive(Debug, Clone)]
pub struct SetupRequest {
    pub password: Option<String>,
    pub proxy_map: Option<Vec<(String, String)>>,
    pub waf_port: Option<u16>,
    pub api_key: Option<String>,
    pub llm_base_url: Option<String>,
    pub llm_model: Option<String>,
}

/// Why a setup request is refused.
#[derive(Debug, Clone, Copy, PartialEq, Eq, Structural)]
pub enum SetupError {
    AlreadyInitialized,
    MissingToken,
    TokenUsed,
    InvalidToken,
    MissingPassword,
    InvalidProxyMap,
}

/// The message of a refusal.
pub open spec fn setup_message(e: SetupError) -> Seq<char> {
    match e {
        SetupError::AlreadyInitialized => "System already initialized"@,
        SetupError::MissingToken => "Missing X-Init-Token header"@,
        SetupError::TokenUsed => "Initialization token has already been used"@,
        SetupError::InvalidToken => "Invalid initialization token"@,
        SetupError::MissingPassword => "Password and proxy map are required"@,
        SetupError::InvalidProxyMap => "Invalid proxy map format"@,
    }
}

impl SetupError {
    /// The message shown for the refusal.
    pub fn message(&self) -> (m: String)
        ensures
            m@ == setup_message(*self),
    {
        match self {
            SetupError::AlreadyInitialized => owned_text("System already initialized"),
            SetupError::MissingToken => owned_text("Missing X-Init-Token header"),
            SetupError::TokenUsed => owned_text("Initialization token has already been used"),
            SetupError::InvalidToken => owned_text("Invalid initialization token"),
            SetupError::MissingPassword => owned_text("Password and proxy map are required"),
            SetupError::InvalidProxyMap => owned_text("Invalid proxy map format"),
        }
    }
}

/// The first check a setup request fails, in order: the system is already
/// set up (it has a proxy map), no token was sent, the token was used up
/// (the expected one is empty), the token differs, no or an empty password,
/// no or an empty proxy map.
pub open spec fn setup_refusal(s: Settings, expected: Seq<char>, token: Option<Seq<char>>, req: SetupRequest) -> Option<SetupError> {
    if s.proxy_map@.len() > 0 {
        Some(SetupError::AlreadyInitialized)
    } else if token is None {
        Some(SetupError::MissingToken)
    } else if expected.len() == 0 {
        Some(SetupError::TokenUsed)
    } else if token->0 != expected {
        Some(SetupError::InvalidToken)
    } else if !(req.password matches Some(p) && p@.len() > 0) {
        Some(SetupError::MissingPassword)
    } else if !(req.proxy_map matches Some(m) && m@.len() > 0) {
        Some(SetupError::InvalidProxyMap)
    } else {
        None
    }
}

/// The settings after an accepted setup: the password and proxy map of the
/// request, and each of port, model key, model address and model name where
/// the request gives one.
pub open spec fn setup_settings(s: Settings, req: SetupRequest) -> Settings {
    Settings {
        dashboard_password: req.password->0,
        proxy_map: req.proxy_map->0,
        waf_port: match req.waf_port { Some(v) => v, None => s.waf_port },
        api_key: match req.api_key { Some(v) => v, None => s.api_key },
        llm_base_url: match req.llm_base_url { Some(v) => v, None => s.llm_base_url },
        llm_model: match req.llm_model { Some(v) => v, None => s.llm_model },
        ..s
    }
}

/// Checks a setup request against the settings and the one-time token
/// `init_token`, and applies it: on success the settings take the request's
/// values and the token is used up (emptied); a refused request changes
/// nothing.
pub fn apply_setup(settings: &mut Settings, init_token: &mut String, token: Option<&str>, req: SetupRequest)
    -> (r: Result<(), SetupError>)
    ensures
        match setup_refusal(*old(settings), old(init_token)@, match token { Some(t) => Some(t@), None => None }, req) {
            Some(e) => r == Err::<(), SetupError>(e) && *final(settings) == *old(settings)
                && *final(init_token) == *old(init_token),
            None => r is Ok && *final(settings) == setup_settings(*old(settings), req)
                && final(init_token)@.len() == 0,
        },
{
    if settings.is_initialized() {
        return Err(SetupError::AlreadyInitialized);
    }
    let given = match token {
        Some(t) => t,
        None => return Err(SetupError::MissingToken),
    };
    if init_token.as_str().is_empty() {
        return Err(SetupError::TokenUsed);
    }
    proof {
        vstd::utf8::encode_utf8_decode_utf8(given@);
        vstd::utf8::encode_utf8_decode_utf8(init_token@);
    }
    let a = given.as_bytes_vec();
    let b = init_token.as_str().as_bytes_vec();
    if !constant_time_compare(a.as_slice(), b.as_slice()) {
        return Err(SetupError::InvalidToken);
    }
    let password = match req.password {
        Some(p) => {
            if p.as_str().is_empty() {
                return Err(SetupError::MissingPassword);
            }
            p
        },
        None => return Err(SetupError::MissingPassword),
    };
    let proxy_map = match req.proxy_map {
        Some(m) => {
            if m.len() == 0 {
                return Err(SetupError::InvalidProxyMap);
            }
            m
        },
        None => return Err(SetupError::InvalidProxyMap),
    };
    settings.dashboard_password = password;
    settings.proxy_map = proxy_map;
    match req.waf_port {
        Some(v) => { settings.waf_port = v; },
        None => {},
    }
    match req.api_key {
        Some(v) => { settings.api_key = v; },
        None => {},
    }
    match req.llm_base_url {
        Some(v) => { settings.llm_base_url = v; },
        None => {},
    }
    match req.llm_model {
        Some(v) => { settings.llm_model = v; },
        None => {},
    }
    *init_token = String::new();
    Ok(())
}

} // verus!
