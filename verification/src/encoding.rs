//! Hex encoding (through the `hex` crate) and the SHA-256 / HMAC-SHA256
//! primitives (through `sha2` and `hmac`), with the laws the challenge
//! tokens rest on.
use vstd::prelude::*;
use hmac::{Hmac, Mac};
use sha2::{Digest, Sha256};

verus! {

/// The lowercase hex digit for a value below 16 (the table `hex::encode` uses).
pub open spec fn hex_digit(v: nat) -> char {
    if v < 10 {
        ((v + '0' as u32) as u32) as char
    } else {
        ((v - 10 + 'a' as u32) as u32) as char
    }
}

/// What `hex::encode` produces: two lowercase digits per byte, high nibble first.
pub open spec fn hex_encode_spec(b: Seq<u8>) -> Seq<char>
    decreases b.len(),
{
    if b.len() == 0 {
        Seq::<char>::empty()
    } else {
        hex_encode_spec(b.drop_last()) + seq![hex_digit((b.last() / 16) as nat), hex_digit((b.last() % 16) as nat)]
    }
}

/// The value of a hex digit of either case (as `hex` reads it).
pub open spec fn hex_value(c: char) -> Option<nat> {
    if '0' <= c && c <= '9' {
        Some((c as u32 - '0' as u32) as nat)
    } else if 'a' <= c && c <= 'f' {
        Some((c as u32 - 'a' as u32 + 10) as nat)
    } else if 'A' <= c && c <= 'F' {
        Some((c as u32 - 'A' as u32 + 10) as nat)
    } else {
        None
    }
}

/// What `hex::decode` gives on a string: bytes when every character is a hex
/// digit and their number is even, nothing otherwise.
pub open spec fn hex_decode_spec(s: Seq<char>) -> Option<Seq<u8>>
    decreases s.len(),
{
    if s.len() % 2 != 0 {
        None
    } else if s.len() == 0 {
        Some(Seq::<u8>::empty())
    } else {
        match (hex_decode_spec(s.take(s.len() - 2)), hex_value(s[s.len() - 2]), hex_value(s[s.len() - 1])) {
            (Some(prev), Some(hi), Some(lo)) => Some(prev.push((hi * 16 + lo) as u8)),
            _ => None,
        }
    }
}

/// Every character is a lowercase hex digit.
pub open spec fn is_lower_hex(s: Seq<char>) -> bool {
    forall|i: int| 0 <= i < s.len() ==> (('0' <= #[trigger] s[i] && s[i] <= '9') || ('a' <= s[i] && s[i] <= 'f'))
}

/// Hex-encodes bytes with `hex::encode`.
#[verifier::external_body]
pub(crate) fn hex_encode(b: &[u8]) -> (s: String)
    ensures
        s@ == hex_encode_spec(b@),
{
    hex::encode(b)
}

/// Hex-decodes a string with `hex::decode`; `None` on any decoding error.
#[verifier::external_body]
pub(crate) fn hex_decode(s: &str) -> (r: Option<Vec<u8>>)
    ensures
        match r {
            Some(v) => hex_decode_spec(s@) == Some(v@),
            None => hex_decode_spec(s@) is None,
        },
{
    match hex::decode(s) {
        Ok(v) => Some(v),
        Err(_) => None,
    }
}

proof fn lemma_hex_digit_value(v: nat)
    requires
        v < 16,
    ensures
        hex_value(hex_digit(v)) == Some(v),
        ('0' <= hex_digit(v) && hex_digit(v) <= '9') || ('a' <= hex_digit(v) && hex_digit(v) <= 'f'),
{
}

/// Hex encoding has twice as many characters as bytes, all lowercase digits.
pub proof fn lemma_hex_encode_shape(b: Seq<u8>)
    ensures
        hex_encode_spec(b).len() == 2 * b.len(),
        is_lower_hex(hex_encode_spec(b)),
    decreases b.len(),
{
    if b.len() > 0 {
        lemma_hex_encode_shape(b.drop_last());
        lemma_hex_digit_value((b.last() / 16) as nat);
        lemma_hex_digit_value((b.last() % 16) as nat);
        let e = hex_encode_spec(b);
        let p = hex_encode_spec(b.drop_last());
        assert forall|i: int| 0 <= i < e.len() implies (('0' <= #[trigger] e[i] && e[i] <= '9') || ('a' <= e[i] && e[i] <= 'f')) by {
            if i < p.len() {
                assert(e[i] == p[i]);
            }
        }
    }
}

/// Decoding what was encoded gives back the bytes.
pub proof fn law_hex_roundtrip(b: Seq<u8>)
    ensures
        hex_decode_spec(hex_encode_spec(b)) == Some(b),
    decreases b.len(),
{
    if b.len() > 0 {
        law_hex_roundtrip(b.drop_last());
        lemma_hex_encode_shape(b.drop_last());
        lemma_hex_encode_shape(b);
        let e = hex_encode_spec(b);
        let x = b.last();
        lemma_hex_digit_value((x / 16) as nat);
        lemma_hex_digit_value((x % 16) as nat);
        assert(e.take(e.len() - 2) =~= hex_encode_spec(b.drop_last()));
        assert(e[e.len() - 2] == hex_digit((x / 16) as nat));
        assert(e[e.len() - 1] == hex_digit((x % 16) as nat));
        assert(((x / 16) * 16 + x % 16) as u8 == x);
        assert(b.drop_last().push(x) =~= b);
    } else {
        assert(hex_encode_spec(b) =~= Seq::<char>::empty());
    }
}

/// The SHA-256 digest of a byte string (`sha2::Sha256`).
pub uninterp spec fn sha256(data: Seq<u8>) -> Seq<u8>;

/// The HMAC-SHA256 tag of the UTF-8 bytes of `msg` under the UTF-8 bytes of
/// `key` (`hmac::Hmac<sha2::Sha256>`).
pub uninterp spec fn hmac_sha256(key: Seq<char>, msg: Seq<char>) -> Seq<u8>;

/// SHA-256 of `data` with `sha2::Sha256::digest`; 32 bytes.
#[verifier::external_body]
pub(crate) fn sha256_digest(data: &[u8]) -> (d: Vec<u8>)
    ensures
        d@ == sha256(data@),
        d@.len() == 32,
{
    Sha256::digest(data).to_vec()
}

/// HMAC-SHA256 of `msg` under `key` (`Mac::new_from_slice`, `update`,
/// `finalize`); 32 bytes. Any key length is accepted by `hmac`.
#[verifier::external_body]
pub(crate) fn hmac_sha256_sign(key: &str, msg: &str) -> (tag: Vec<u8>)
    ensures
        tag@ == hmac_sha256(key@, msg@),
        tag@.len() == 32,
{
    let mut mac = <Hmac<Sha256> as Mac>::new_from_slice(key.as_bytes()).expect("HMAC accepts keys of any length");
    mac.update(msg.as_bytes());
    mac.finalize().into_bytes().to_vec()
}

/// Checks a tag with `Mac::verify_slice`: it succeeds exactly when the tag
/// equals the full HMAC-SHA256 of `msg` under `key`.
#[verifier::external_body]
pub(crate) fn hmac_sha256_verify(key: &str, msg: &str, tag: &[u8]) -> (ok: bool)
    ensures
        ok == (tag@ == hmac_sha256(key@, msg@)),
{
    let mut mac = match <Hmac<Sha256> as Mac>::new_from_slice(key.as_bytes()) {
        Ok(m) => m,
        Err(_) => return false,
    };
    mac.update(msg.as_bytes());
    mac.verify_slice(tag).is_ok()
}

} // verus!
