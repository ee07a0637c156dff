//! Request signing and the clock.

use chrono::{DateTime, Utc};
use hmac::{Hmac, Mac};
use rustc_serialize::hex::ToHex;
use sha2::Sha256;
use std::time::SystemTime;
use vstd::prelude::*;
use vstd::utf8::encode_utf8;

verus! {

/// The HMAC-SHA256 authentication code of `message` under `key`.
pub uninterp spec fn hmac_sha256(key: Seq<u8>, message: Seq<u8>) -> Seq<u8>;

/// The lowercase hexadecimal digit that stands for `nibble`.
pub open spec fn hex_digit(nibble: int) -> char {
    if nibble < 10 {
        ('0' as u8 + nibble) as char
    } else {
        ('a' as u8 + (nibble - 10)) as char
    }
}

/// Lowercase hexadecimal text of `bytes`: two digits for each byte, the high
/// half first.
pub open spec fn hex_lower(bytes: Seq<u8>) -> Seq<char> {
    Seq::new(
        2 * bytes.len(),
        |i: int|
            if i % 2 == 0 {
                hex_digit(bytes[i / 2] as int / 16)
            } else {
                hex_digit(bytes[i / 2] as int % 16)
            },
    )
}

/// The signature of `payload` under `secret`: the hexadecimal text of the
/// HMAC-SHA256 code computed over the UTF-8 bytes of both.
pub open spec fn signature(payload: Seq<char>, secret: Seq<char>) -> Seq<char> {
    hex_lower(hmac_sha256(encode_utf8(secret), encode_utf8(payload)))
}

/// Runs `Hmac<Sha256>` of the `hmac` crate: `new_varkey` with `key`, `input`
/// with `message`, then `result().code()`.  Trusted to return the HMAC-SHA256
/// code, which is 32 bytes long; `new_varkey` accepts a key of any length.
#[verifier::external_body]
fn hmac_sha256_code(key: &[u8], message: &[u8]) -> (code: Vec<u8>)
    ensures
        code@ == hmac_sha256(key@, message@),
        code@.len() == 32,
{
    let mut mac = Hmac::<Sha256>::new_varkey(key).expect("HMAC can take key of any size");
    mac.input(message);
    mac.result().code().to_vec()
}

/// Calls `ToHex::to_hex` of `rustc_serialize` on a byte slice.  Trusted to
/// return two lowercase hexadecimal digits per byte, the high half first.
#[verifier::external_body]
fn to_hex(bytes: &[u8]) -> (text: String)
    ensures
        text@ == hex_lower(bytes@),
{
    bytes.to_hex()
}

/// Signs `payload` with `secret`.
///
/// The result depends on nothing but the two arguments, so equal inputs
/// always give equal signatures.
pub fn sign(payload: &str, secret: &str) -> (signed: String)
    ensures
        signed@ == signature(payload@, secret@),
        signed@.len() == 64,
{
    let code = hmac_sha256_code(secret.as_bytes(), payload.as_bytes());
    to_hex(code.as_slice())
}

/// The current time in whole seconds since the Unix epoch, read from the
/// system clock and converted by `chrono`: `DateTime::<Utc>::from` on
/// `SystemTime::now()`, then `timestamp()`.  Nothing is promised of the
/// value: two calls may differ, and a clock may be set to anything.  A clock
/// that is set before the epoch gives a negative value.  The conversion
/// panics only for a time outside the dates that `chrono` holds, more than
/// 262,000 years from the epoch.
#[verifier::external_body]
pub fn get_unix_timestamp() -> i64 {
    DateTime::<Utc>::from(SystemTime::now()).timestamp()
}

} // verus!
