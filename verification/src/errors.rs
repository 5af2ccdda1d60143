//! The firewall's error type and the I/O error it wraps.
use vstd::prelude::*;
use crate::text::{chars_of, string_from_chars, append_chars};

verus! {

/// `std::io::Error`, carried through as opaque data.
#[verifier::external_type_specification]
#[verifier::external_body]
pub struct ExIoError(std::io::Error);

/// The text that an I/O error displays.
#[verifier::external_body]
pub(crate) fn io_error_text(e: &std::io::Error) -> String {
    format!("{}", e)
}

/// Errors of firewall operations.
#[derive(Debug)]
pub enum WafError {
    IoError(std::io::Error),
    ConfigError(String),
    StorageError(String),
    SecurityError(String),
    DetectionError(String),
    ProxyError(String),
    PluginError(String),
    SerdeError(String),
    Generic(String),
}

/// The prefix that the message of each kind of error starts with.
pub open spec fn error_prefix(e: WafError) -> Seq<char> {
    match e {
        WafError::IoError(_) => "I/O error: "@,
        WafError::ConfigError(_) => "Configuration error: "@,
        WafError::StorageError(_) => "Storage error: "@,
        WafError::SecurityError(_) => "Security error: "@,
        WafError::DetectionError(_) => "Detection error: "@,
        WafError::ProxyError(_) => "Proxy error: "@,
        WafError::PluginError(_) => "Plugin error: "@,
        WafError::SerdeError(_) => "Serialization error: "@,
        WafError::Generic(_) => "Error: "@,
    }
}

/// The text that an error carries (none is known of an I/O error's).
pub open spec fn error_detail(e: WafError) -> Option<Seq<char>> {
    match e {
        WafError::IoError(_) => None,
        WafError::ConfigError(s) => Some(s@),
        WafError::StorageError(s) => Some(s@),
        WafError::SecurityError(s) => Some(s@),
        WafError::DetectionError(s) => Some(s@),
        WafError::ProxyError(s) => Some(s@),
        WafError::PluginError(s) => Some(s@),
        WafError::SerdeError(s) => Some(s@),
        WafError::Generic(s) => Some(s@),
    }
}

impl WafError {
    /// The error's message: its kind's prefix, then its text (for an I/O
    /// error, the text that the I/O error displays).
    pub fn message(&self) -> (m: String)
        ensures
            m@.len() >= error_prefix(*self).len(),
            m@.take(error_prefix(*self).len() as int) == error_prefix(*self),
            error_detail(*self) matches Some(d) ==> m@ == error_prefix(*self) + d,
    {
        proof {
            reveal_strlit("I/O error: ");
            reveal_strlit("Configuration error: ");
            reveal_strlit("Storage error: ");
            reveal_strlit("Security error: ");
            reveal_strlit("Detection error: ");
            reveal_strlit("Proxy error: ");
            reveal_strlit("Plugin error: ");
            reveal_strlit("Serialization error: ");
            reveal_strlit("Error: ");
        }
        let (prefix, detail) = match self {
            WafError::IoError(e) => ("I/O error: ", io_error_text(e)),
            WafError::ConfigError(s) => ("Configuration error: ", s.clone()),
            WafError::StorageError(s) => ("Storage error: ", s.clone()),
            WafError::SecurityError(s) => ("Security error: ", s.clone()),
            WafError::DetectionError(s) => ("Detection error: ", s.clone()),
            WafError::ProxyError(s) => ("Proxy error: ", s.clone()),
            WafError::PluginError(s) => ("Plugin error: ", s.clone()),
            WafError::SerdeError(s) => ("Serialization error: ", s.clone()),
            WafError::Generic(s) => ("Error: ", s.clone()),
        };
        let mut out = chars_of(prefix);
        let ghost p = out@;
        append_chars(&mut out, chars_of(detail.as_str()).as_slice());
        assert(out@.take(p.len() as int) =~= p);
        string_from_chars(out.as_slice())
    }
}

impl From<std::io::Error> for WafError {
    fn from(e: std::io::Error) -> (r: Self) {
        WafError::IoError(e)
    }
}

impl vstd::std_specs::convert::FromSpecImpl<std::io::Error> for WafError {
    open spec fn obeys_from_spec() -> bool {
        true
    }

    open spec fn from_spec(e: std::io::Error) -> Self {
        WafError::IoError(e)
    }
}

} // verus!
