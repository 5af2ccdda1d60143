//! API-key authentication: constant-time key comparison, lookup of a key
//! among the configured ones, the answer of the authentication layers, the
//! permission check, and the masking of secrets for display.
use vstd::prelude::*;
use crate::text::{chars_of, string_from_chars, append_chars};
use crate::models::{WafApiKey, texts};
use vstd::string::StrSliceExecFns;
use vstd::string::StringSliceAdditionalSpecFns;

verus! {

/// Whether two byte strings are equal, looking at every byte of the
/// shorter-or-equal input regardless of where they differ.
pub fn constant_time_compare(a: &[u8], b: &[u8]) -> (eq: bool)
    ensures
        eq == (a@ == b@),
{
    if a.len() != b.len() {
        return false;
    }
    let mut diff: bool = false;
    let mut i: usize = 0;
    while i < a.len()
        invariant
            a@.len() == b@.len(),
            i <= a@.len(),
            diff == exists|j: int| 0 <= j < i && a@[j] != b@[j],
        decreases a.len() - i,
    {
        let differs = a[i] != b[i];
        diff = diff || differs;
        i = i + 1;
    }
    proof {
        if !diff {
            assert(a@ =~= b@);
        }
    }
    !diff
}

/// The index of the first configured key equal to `key`.
pub open spec fn key_index(keys: Seq<WafApiKey>, key: Seq<char>) -> Option<int>
    decreases keys.len(),
{
    if keys.len() == 0 {
        None
    } else if keys[0].key@ == key {
        Some(0)
    } else {
        match key_index(keys.drop_first(), key) {
            Some(i) => Some(i + 1),
            None => None,
        }
    }
}

/// Facts about [`key_index`].
pub proof fn lemma_key_index(keys: Seq<WafApiKey>, key: Seq<char>)
    ensures
        match key_index(keys, key) {
            Some(i) => 0 <= i < keys.len() && keys[i].key@ == key
                && forall|j: int| 0 <= j < i ==> keys[j].key@ != key,
            None => forall|j: int| 0 <= j < keys.len() ==> keys[j].key@ != key,
        },
    decreases keys.len(),
{
    if keys.len() > 0 {
        lemma_key_index(keys.drop_first(), key);
        assert forall|j: int| 0 < j < keys.len() implies #[trigger] keys[j] == keys.drop_first()[j - 1] by {}
    }
}

/// The first configured key equal to `key`, compared in constant time.
pub fn find_api_key(keys: &Vec<WafApiKey>, key: &str) -> (r: Option<usize>)
    ensures
        match r {
            Some(i) => key_index(keys@, key@) == Some(i as int),
            None => key_index(keys@, key@) is None,
        },
{
    proof {
        lemma_key_index(keys@, key@);
        vstd::utf8::encode_utf8_decode_utf8(key@);
    }
    let mut i: usize = 0;
    while i < keys.len()
        invariant
            i <= keys@.len(),
            forall|j: int| 0 <= j < i ==> keys@[j].key@ != key@,
            match key_index(keys@, key@) {
                Some(k) => 0 <= k < keys@.len() && keys@[k].key@ == key@
                    && forall|j: int| 0 <= j < k ==> keys@[j].key@ != key@,
                None => forall|j: int| 0 <= j < keys@.len() ==> keys@[j].key@ != key@,
            },
        decreases keys.len() - i,
    {
        let stored = keys[i].key.as_str().as_bytes_vec();
        let given = key.as_bytes_vec();
        let same = constant_time_compare(stored.as_slice(), given.as_slice());
        proof {
            vstd::utf8::encode_utf8_decode_utf8(keys@[i as int].key@);
            vstd::utf8::encode_utf8_decode_utf8(key@);
        }
        if same {
            return Some(i);
        }
        i = i + 1;
    }
    None
}

/// Whether the key `api_key` is configured and grants `permission` (it
/// lists it or `*`).
pub open spec fn permitted(keys: Seq<WafApiKey>, api_key: Seq<char>, permission: Seq<char>) -> bool {
    match key_index(keys, api_key) {
        Some(i) => texts(keys[i].permissions@).contains(permission) || texts(keys[i].permissions@).contains("*"@),
        None => false,
    }
}

/// Whether the key `api_key` is configured and grants `permission`.
pub fn check_permission(api_key: &str, permission: &str, keys: &Vec<WafApiKey>) -> (b: bool)
    ensures
        b == permitted(keys@, api_key@, permission@),
{
    match find_api_key(keys, api_key) {
        Some(i) => {
            proof {
                lemma_key_index(keys@, api_key@);
            }
            keys[i].has_permission(permission)
        },
        None => false,
    }
}

/// The answer of an authentication layer to a request.
#[derive(Debug, Clone, Copy, PartialEq, Eq, Structural)]
pub enum AuthOutcome {
    /// No `X-API-Key` header (401).
    Missing,
    /// The key is not configured (403).
    Invalid,
    /// The key is configured but switched off (403).
    Inactive,
    /// The request may proceed.
    Accepted,
}

/// The answer for a request that carries `key` (or none).
pub open spec fn auth_outcome_spec(keys: Seq<WafApiKey>, key: Option<Seq<char>>) -> AuthOutcome {
    match key {
        None => AuthOutcome::Missing,
        Some(k) => match key_index(keys, k) {
            None => AuthOutcome::Invalid,
            Some(i) => if keys[i].is_active {
                AuthOutcome::Accepted
            } else {
                AuthOutcome::Inactive
            },
        },
    }
}

/// How the API-key layers answer a request carrying `key` (the `X-API-Key`
/// header, if any).
pub fn authenticate(keys: &Vec<WafApiKey>, key: Option<&str>) -> (o: AuthOutcome)
    ensures
        o == auth_outcome_spec(keys@, match key {
            Some(k) => Some(k@),
            None => None,
        }),
{
    match key {
        None => AuthOutcome::Missing,
        Some(k) => match find_api_key(keys, k) {
            None => AuthOutcome::Invalid,
            Some(i) => {
                proof {
                    lemma_key_index(keys@, k@);
                }
                if keys[i].is_active {
                    AuthOutcome::Accepted
                } else {
                    AuthOutcome::Inactive
                }
            },
        },
    }
}

/// Whether the dashboard accepts an `X-API-Key` header: it equals the
/// dashboard's own (non-empty) key, or an active configured key.
pub open spec fn dashboard_key_ok(own: Seq<char>, keys: Seq<WafApiKey>, key: Option<Seq<char>>) -> bool {
    match key {
        None => false,
        Some(k) => (own.len() > 0 && k == own)
            || exists|j: int| 0 <= j < keys.len() && keys[j].is_active && #[trigger] keys[j].key@ == k,
    }
}

/// Whether the dashboard accepts an `X-API-Key` header.
pub fn check_api_key_header(own_key: &str, keys: &Vec<WafApiKey>, key: Option<&str>) -> (b: bool)
    ensures
        b == dashboard_key_ok(own_key@, keys@, match key {
            Some(k) => Some(k@),
            None => None,
        }),
{
    let k = match key {
        Some(k) => k,
        None => {
            return false;
        },
    };
    proof {
        vstd::utf8::encode_utf8_decode_utf8(k@);
        vstd::utf8::encode_utf8_decode_utf8(own_key@);
    }
    let given = k.as_bytes_vec();
    if !own_key.is_empty() && constant_time_compare(given.as_slice(), own_key.as_bytes_vec().as_slice()) {
        return true;
    }
    let mut i: usize = 0;
    while i < keys.len()
        invariant
            i <= keys@.len(),
            key == Some(k),
            given@ == vstd::utf8::encode_utf8(k@),
            vstd::utf8::decode_utf8(vstd::utf8::encode_utf8(k@)) == k@,
            forall|j: int| 0 <= j < i ==> !(keys@[j].is_active && keys@[j].key@ == k@),
        decreases keys.len() - i,
    {
        let stored = keys[i].key.as_str().as_bytes_vec();
        proof {
            vstd::utf8::encode_utf8_decode_utf8(keys@[i as int].key@);
        }
        if keys[i].is_active && constant_time_compare(stored.as_slice(), given.as_slice()) {
            assert(keys@[i as int].key@ == k@);
            return true;
        }
        i = i + 1;
    }
    false
}

/// An authenticated caller of the API.
#[derive(Debug, Clone)]
pub struct RequireAuth {
    pub api_key: String,
}

/// Why a permission was refused.
#[derive(Debug, Clone, Copy, PartialEq, Eq, Structural)]
pub enum PermissionError {
    /// The key does not grant the permission.
    InsufficientPermissions,
    /// The key is not configured.
    InvalidApiKey,
}

impl RequireAuth {
    /// Whether the caller's key grants `permission`: `Ok`, or why not.
    pub fn require_permission(&self, permission: &str, keys: &Vec<WafApiKey>) -> (r: Result<(), PermissionError>)
        ensures
            match key_index(keys@, self.api_key@) {
                None => r == Err::<(), PermissionError>(PermissionError::InvalidApiKey),
                Some(_) => if permitted(keys@, self.api_key@, permission@) {
                    r is Ok
                } else {
                    r == Err::<(), PermissionError>(PermissionError::InsufficientPermissions)
                },
            },
    {
        match find_api_key(keys, self.api_key.as_str()) {
            None => Err(PermissionError::InvalidApiKey),
            Some(i) => {
                proof {
                    lemma_key_index(keys@, self.api_key@);
                }
                if keys[i].has_permission(permission) {
                    Ok(())
                } else {
                    Err(PermissionError::InsufficientPermissions)
                }
            },
        }
    }
}

/// A secret shown as its first `visible_prefix` bytes followed by `***`;
/// `***` alone when it is not longer than that, and empty when empty.
pub fn mask_sensitive_value(value: &str, visible_prefix: usize) -> (m: String)
    requires
        vstd::utf8::encode_utf8(value@).len() <= usize::MAX,
        value@.len() > 0 && vstd::utf8::encode_utf8(value@).len() > visible_prefix ==> vstd::utf8::is_char_boundary(
            vstd::utf8::encode_utf8(value@),
            visible_prefix as int,
        ),
    ensures
        value@.len() == 0 ==> m@.len() == 0,
        value@.len() > 0 && vstd::utf8::encode_utf8(value@).len() <= visible_prefix ==> m@ == "***"@,
        value@.len() > 0 && vstd::utf8::encode_utf8(value@).len() > visible_prefix ==> m@.len() >= 3
            && m@.skip(m@.len() - 3) == "***"@
            && vstd::utf8::encode_utf8(m@.take(m@.len() - 3)) == vstd::utf8::encode_utf8(value@).take(visible_prefix as int),
{
    proof {
        reveal_strlit("***");
    }
    if value.is_empty() {
        return String::new();
    }
    if value.len() <= visible_prefix {
        return string_from_chars(chars_of("***").as_slice());
    }
    assert(value.spec_bytes() == vstd::utf8::encode_utf8(value@));
    let (head, _tail) = value.split_at(visible_prefix);
    assert(head.spec_bytes() == vstd::utf8::encode_utf8(head@));
    let mut out = chars_of(head);
    let ghost h = out@;
    append_chars(&mut out, chars_of("***").as_slice());
    assert(out@.take(out@.len() - 3) =~= h);
    assert(out@.skip(out@.len() - 3) =~= "***"@);
    string_from_chars(out.as_slice())
}

} // verus!
