//! Time-based one-time passwords (RFC 6238): six-digit codes derived from a
//! base32 secret with HMAC-SHA1 over 30-second time steps.

use vstd::prelude::*;
use vstd::utf8::encode_utf8;
use crate::text::{owned, push_char, push_str};
use vstd::arithmetic::power2::pow2;
use hmac::Mac;
use rand::Rng;

verus! {

broadcast use vstd::string::group_string_axioms;

// ---------------------------------------------------------------------------
// Calls into the encoding, hashing and randomness crates
// ---------------------------------------------------------------------------

/// What `base32::decode` with the unpadded RFC 4648 alphabet gives for a text.
pub uninterp spec fn base32_decoded(s: Seq<char>) -> Option<Seq<u8>>;

/// Bit `i` of a byte string read most significant bit first; bits past the
/// end are 0.
pub open spec fn bit_of(b: Seq<u8>, i: int) -> int {
    if 0 <= i < 8 * b.len() {
        (b[i / 8] as int / pow2((7 - i % 8) as nat) as int) % 2
    } else {
        0
    }
}

/// The value of the `k`-th group of five bits.
pub open spec fn five_bits(b: Seq<u8>, k: int) -> int {
    16 * bit_of(b, 5 * k) + 8 * bit_of(b, 5 * k + 1) + 4 * bit_of(b, 5 * k + 2) + 2 * bit_of(
        b,
        5 * k + 3,
    ) + bit_of(b, 5 * k + 4)
}

/// The RFC 4648 base32 digit for a value below 32: `A`..`Z`, then `2`..`7`.
pub open spec fn base32_digit(v: int) -> char {
    if v < 26 {
        (65 + v) as char
    } else {
        (50 + v - 26) as char
    }
}

/// Unpadded RFC 4648 base32: one digit per five bits, the last group
/// filled with zero bits, so `ceil(8n / 5)` digits for `n` bytes.
pub open spec fn base32_rfc4648(b: Seq<u8>) -> Seq<char> {
    Seq::new(((8 * b.len() + 4) / 5) as nat, |k: int| base32_digit(five_bits(b, k)))
}

/// The HMAC-SHA1 tag of `msg` under `key`.
pub uninterp spec fn hmac_sha1_of(key: Seq<u8>, msg: Seq<u8>) -> Seq<u8>;

/// Calls `base32::decode` (RFC 4648 alphabet, no padding); the result is
/// named by `base32_decoded`.
#[verifier::external_body]
fn base32_decode(s: &str) -> (r: Option<Vec<u8>>)
    ensures
        match r {
            Some(v) => base32_decoded(s@) == Some(v@),
            None => base32_decoded(s@) is None,
        },
{
    base32::decode(base32::Alphabet::Rfc4648 { padding: false }, s)
}

/// Calls `base32::encode` (RFC 4648 alphabet, no padding), which writes
/// each five-byte chunk (the last one zero-filled) as eight digits and then
/// drops the digits that only cover the fill.
#[verifier::external_body]
fn base32_encode(b: &[u8]) -> (r: String)
    ensures
        r@ == base32_rfc4648(b@),
{
    base32::encode(base32::Alphabet::Rfc4648 { padding: false }, b)
}

/// Computes HMAC-SHA1 with the `hmac` and `sha1` crates.  `new_from_slice`
/// accepts keys of every length (longer keys are hashed first), and the tag
/// of SHA-1 is 20 bytes; the tag itself is only named.
#[verifier::external_body]
fn hmac_sha1(key: &[u8], msg: &[u8]) -> (r: Vec<u8>)
    ensures
        r@ == hmac_sha1_of(key@, msg@),
        r@.len() == 20,
{
    match hmac::Hmac::<sha1::Sha1>::new_from_slice(key) {
        Ok(mut mac) => {
            mac.update(msg);
            mac.finalize().into_bytes().to_vec()
        },
        Err(_) => Vec::new(),
    }
}

/// Draws one byte from `rand::random` (the thread-local generator); any
/// byte may come back.
#[verifier::external_body]
fn random_byte() -> (r: u8) {
    rand::random::<u8>()
}

/// Draws a number with `rand::Rng::gen_range` on the thread-local generator;
/// it lies in `[low, high)`.
#[verifier::external_body]
fn random_in_range(low: u32, high: u32) -> (r: u32)
    requires
        low < high,
    ensures
        low <= r < high,
{
    rand::thread_rng().gen_range(low..high)
}

/// Reads the system clock as whole seconds since the Unix epoch; `None`
/// when the clock is set before the epoch.  Nothing is stated of the value.
#[verifier::external_body]
fn unix_time_secs() -> (r: Option<u64>) {
    match std::time::SystemTime::now().duration_since(std::time::UNIX_EPOCH) {
        Ok(d) => Some(d.as_secs()),
        Err(_) => None,
    }
}

// ---------------------------------------------------------------------------
// Percent-encoding as `urlencoding::encode` does it
// ---------------------------------------------------------------------------

/// Bytes that `urlencoding` leaves as they are: ASCII letters and digits
/// and `-`, `.`, `_`, `~`.
pub open spec fn url_safe_byte(b: u8) -> bool {
    (48 <= b <= 57) || (65 <= b <= 90) || (97 <= b <= 122) || b == 45 || b == 46 || b == 95
        || b == 126
}

/// The uppercase hexadecimal digit for a value below 16.
pub open spec fn hex_upper(d: int) -> char {
    if d < 10 {
        (48 + d) as char
    } else {
        (55 + d) as char
    }
}

/// Each unsafe byte written as `%` and two uppercase hexadecimal digits.
pub open spec fn percent_encoded(bytes: Seq<u8>) -> Seq<char>
    decreases bytes.len(),
{
    if bytes.len() == 0 {
        Seq::empty()
    } else {
        let b = bytes.last();
        percent_encoded(bytes.drop_last()) + if url_safe_byte(b) {
            seq![b as char]
        } else {
            seq!['%', hex_upper((b / 16) as int), hex_upper((b % 16) as int)]
        }
    }
}

/// Calls `urlencoding::encode`, which percent-encodes the UTF-8 bytes of the
/// text as `percent_encoded` states.
#[verifier::external_body]
pub(crate) fn url_encode(s: &str) -> (r: String)
    ensures
        r@ == percent_encoded(encode_utf8(s@)),
{
    urlencoding::encode(s).into_owned()
}

// ---------------------------------------------------------------------------
// Codes
// ---------------------------------------------------------------------------

/// Why a TOTP operation failed.
#[derive(Debug, Clone, Copy, PartialEq, Eq, Structural)]
pub enum TotpError {
    InvalidSecret,
    InvalidTime,
    VerificationFailed,
    NotEnabled,
    InvalidBackupCode,
}

impl TotpError {
    pub fn message(&self) -> (r: &'static str)
        ensures
            r@ == match self {
                TotpError::InvalidSecret => "Invalid TOTP secret"@,
                TotpError::InvalidTime => "Invalid time"@,
                TotpError::VerificationFailed => "TOTP verification failed"@,
                TotpError::NotEnabled => "TOTP not enabled"@,
                TotpError::InvalidBackupCode => "Invalid backup code"@,
            },
    {
        match self {
            TotpError::InvalidSecret => "Invalid TOTP secret",
            TotpError::InvalidTime => "Invalid time",
            TotpError::VerificationFailed => "TOTP verification failed",
            TotpError::NotEnabled => "TOTP not enabled",
            TotpError::InvalidBackupCode => "Invalid backup code",
        }
    }
}

/// The last `k` base-256 digits of `n`, most significant first.
pub open spec fn be_bytes(n: nat, k: nat) -> Seq<u8>
    decreases k,
{
    if k == 0 {
        Seq::empty()
    } else {
        be_bytes(n / 256, (k - 1) as nat).push((n % 256) as u8)
    }
}

fn be_bytes_exec(n: u64, k: usize) -> (r: Vec<u8>)
    ensures
        r@ == be_bytes(n as nat, k as nat),
    decreases k,
{
    if k == 0 {
        Vec::new()
    } else {
        let mut v = be_bytes_exec(n / 256, k - 1);
        v.push((n % 256) as u8);
        v
    }
}

/// The 31-bit number that RFC 4226 dynamic truncation reads from a 20-byte
/// HMAC-SHA1 tag: four bytes starting at the offset given by the low four
/// bits of the last byte, with the top bit cleared.
pub open spec fn dynamic_truncation(mac: Seq<u8>) -> int {
    let o = (mac[19] % 16) as int;
    (mac[o] % 128) * 16777216 + mac[o + 1] * 65536 + mac[o + 2] * 256 + mac[o + 3]
}

/// The six-digit code for a tag.
pub open spec fn code_from_mac(mac: Seq<u8>) -> u32 {
    (dynamic_truncation(mac) % 1000000) as u32
}

/// The six-digit code that a 20-byte HMAC-SHA1 tag yields.
pub fn totp_from_mac(mac: &[u8]) -> (r: u32)
    requires
        mac@.len() == 20,
    ensures
        r == code_from_mac(mac@),
        r < 1000000,
{
    let offset = (mac[19] % 16) as usize;
    let b0 = (mac[offset] % 128) as u32;
    let b1 = mac[offset + 1] as u32;
    let b2 = mac[offset + 2] as u32;
    let b3 = mac[offset + 3] as u32;
    let code = b0 * 16777216 + b1 * 65536 + b2 * 256 + b3;
    code % 1000000
}

/// The code for a secret at a moment, or why there is none.
pub open spec fn totp_at(secret: Seq<char>, unix_secs: u64) -> Result<u32, TotpError> {
    match base32_decoded(secret) {
        None => Err(TotpError::InvalidSecret),
        Some(key) => Ok(code_from_mac(hmac_sha1_of(key, be_bytes((unix_secs / 30) as nat, 8)))),
    }
}

/// The code for `secret` at `unix_secs` seconds after the epoch: the
/// HMAC-SHA1 of the big-endian 30-second step under the decoded secret,
/// truncated to six digits.
pub fn generate_totp_at(secret: &str, unix_secs: u64) -> (r: Result<u32, TotpError>)
    ensures
        r == totp_at(secret@, unix_secs),
{
    let key = match base32_decode(secret) {
        Some(k) => k,
        None => {
            return Err(TotpError::InvalidSecret);
        },
    };
    let step = unix_secs / 30;
    let msg = be_bytes_exec(step, 8);
    let mac = hmac_sha1(key.as_slice(), msg.as_slice());
    Ok(totp_from_mac(mac.as_slice()))
}

/// The code for `secret` now; a clock before the epoch gives `InvalidTime`.
/// Every outcome is the code of some moment, or `InvalidTime`.
pub fn generate_totp(secret: &str) -> (r: Result<u32, TotpError>)
    ensures
        (r == Err::<u32, TotpError>(TotpError::InvalidSecret)) <==> base32_decoded(secret@) is None,
        base32_decoded(secret@) is Some ==> (r is Ok || r == Err::<u32, TotpError>(TotpError::InvalidTime)),
        r == Err::<u32, TotpError>(TotpError::InvalidTime) || exists|t: u64| r == totp_at(secret@, t),
        r matches Ok(code) ==> exists|t: u64| totp_at(secret@, t) == Ok::<u32, TotpError>(code),
{
    match unix_time_secs() {
        Some(now) => {
            let r = generate_totp_at(secret, now);
            assert(r == totp_at(secret@, now));
            r
        },
        None => match base32_decode(secret) {
            None => {
                assert(totp_at(secret@, 0) == Err::<u32, TotpError>(TotpError::InvalidSecret));
                Err(TotpError::InvalidSecret)
            },
            Some(_) => Err(TotpError::InvalidTime),
        },
    }
}

/// Whether `code` is the code at `now`, 30 seconds before, or 30 seconds
/// after, checked in that order; the first failure to compute a code is the
/// answer.
pub open spec fn verify_at(secret: Seq<char>, code: u32, now: u64) -> Result<bool, TotpError> {
    match totp_at(secret, now) {
        Err(e) => Err(e),
        Ok(c) => if c == code {
            Ok(true)
        } else if now < 30 {
            Err(TotpError::InvalidTime)
        } else if totp_at(secret, (now - 30) as u64) == Ok::<u32, TotpError>(code) {
            Ok(true)
        } else if now > u64::MAX - 30 {
            Err(TotpError::InvalidTime)
        } else if totp_at(secret, (now + 30) as u64) == Ok::<u32, TotpError>(code) {
            Ok(true)
        } else {
            Ok(false)
        },
    }
}

/// A code generated at a moment is accepted at that moment, 30 seconds
/// later, and 30 seconds earlier once the earlier moment is at least a
/// minute after the epoch.
pub proof fn lemma_generated_code_verifies(secret: Seq<char>, t: u64, code: u32)
    requires
        totp_at(secret, t) == Ok::<u32, TotpError>(code),
    ensures
        verify_at(secret, code, t) == Ok::<bool, TotpError>(true),
        t <= u64::MAX - 30 ==> verify_at(secret, code, (t + 30) as u64) == Ok::<bool, TotpError>(true),
        t >= 60 ==> verify_at(secret, code, (t - 30) as u64) == Ok::<bool, TotpError>(true),
{
    if t <= u64::MAX - 30 {
        let later = (t + 30) as u64;
        assert((later - 30) as u64 == t);
    }
    if t >= 60 {
        let earlier = (t - 30) as u64;
        assert((earlier + 30) as u64 == t);
    }
}

/// Checks a code against the window around `now`.
pub fn verify_totp_at(secret: &str, code: u32, now: u64) -> (r: Result<bool, TotpError>)
    ensures
        r == verify_at(secret@, code, now),
{
    match generate_totp_at(secret, now) {
        Err(e) => {
            return Err(e);
        },
        Ok(c) => {
            if c == code {
                return Ok(true);
            }
        },
    }
    if now < 30 {
        return Err(TotpError::InvalidTime);
    }
    match generate_totp_at(secret, now - 30) {
        Err(e) => {
            return Err(e);
        },
        Ok(c) => {
            if c == code {
                return Ok(true);
            }
        },
    }
    if now > u64::MAX - 30 {
        return Err(TotpError::InvalidTime);
    }
    match generate_totp_at(secret, now + 30) {
        Err(e) => Err(e),
        Ok(c) => Ok(c == code),
    }
}

/// Checks a code against the current time window.  Every outcome is the
/// check at some moment, or `InvalidTime`.
pub fn verify_totp(secret: &str, code: u32) -> (r: Result<bool, TotpError>)
    ensures
        (r == Err::<bool, TotpError>(TotpError::InvalidSecret)) <==> base32_decoded(secret@) is None,
        base32_decoded(secret@) is Some ==> (r is Ok || r == Err::<bool, TotpError>(TotpError::InvalidTime)),
        r == Err::<bool, TotpError>(TotpError::InvalidTime) || exists|t: u64| r == verify_at(secret@, code, t),
        r matches Ok(true) ==> exists|t: u64| totp_at(secret@, t) == Ok::<u32, TotpError>(code),
{
    match unix_time_secs() {
        Some(now) => {
            let r = verify_totp_at(secret, code, now);
            assert(r == verify_at(secret@, code, now));
            proof {
                if r == Ok::<bool, TotpError>(true) {
                    if totp_at(secret@, now) == Ok::<u32, TotpError>(code) {
                    } else if totp_at(secret@, (now - 30) as u64) == Ok::<u32, TotpError>(code) {
                    } else {
                        assert(totp_at(secret@, (now + 30) as u64) == Ok::<u32, TotpError>(code));
                    }
                }
            }
            r
        },
        None => match base32_decode(secret) {
            None => {
                assert(verify_at(secret@, code, 0) == Err::<bool, TotpError>(TotpError::InvalidSecret));
                Err(TotpError::InvalidSecret)
            },
            Some(_) => Err(TotpError::InvalidTime),
        },
    }
}

/// A new secret: 20 random bytes in unpadded base32, so 32 digits.
pub fn generate_secret() -> (r: String)
    ensures
        exists|b: Seq<u8>| b.len() == 20 && r@ == base32_rfc4648(b),
        r@.len() == 32,
        forall|i: int| 0 <= i < r@.len() ==> ('A' <= #[trigger] r@[i] <= 'Z' || '2' <= r@[i] <= '7'),
{
    let mut bytes: Vec<u8> = Vec::new();
    while bytes.len() < 20
        invariant
            bytes@.len() <= 20,
        decreases 20 - bytes@.len(),
    {
        bytes.push(random_byte());
    }
    let r = base32_encode(bytes.as_slice());
    proof {
        assert forall|i: int| 0 <= i < r@.len() implies ('A' <= #[trigger] r@[i] <= 'Z' || '2' <= r@[i] <= '7') by {
            lemma_five_bits_range(bytes@, i);
        }
    }
    r
}

proof fn lemma_bit_range(b: Seq<u8>, i: int)
    ensures
        0 <= bit_of(b, i) <= 1,
{
}

proof fn lemma_five_bits_range(b: Seq<u8>, k: int)
    ensures
        0 <= five_bits(b, k) < 32,
{
    lemma_bit_range(b, 5 * k);
    lemma_bit_range(b, 5 * k + 1);
    lemma_bit_range(b, 5 * k + 2);
    lemma_bit_range(b, 5 * k + 3);
    lemma_bit_range(b, 5 * k + 4);
}

/// The decimal digit for a value below 10.
pub open spec fn digit_char(d: int) -> char {
    (48 + d) as char
}

/// The last `k` decimal digits of `n`, zero-padded, most significant first.
pub open spec fn decimal_fixed(n: nat, k: nat) -> Seq<char>
    decreases k,
{
    if k == 0 {
        Seq::empty()
    } else {
        decimal_fixed(n / 10, (k - 1) as nat).push(digit_char((n % 10) as int))
    }
}

fn decimal_fixed_exec(n: u32, k: usize) -> (r: String)
    ensures
        r@ == decimal_fixed(n as nat, k as nat),
    decreases k,
{
    if k == 0 {
        String::new()
    } else {
        let mut s = decimal_fixed_exec(n / 10, k - 1);
        let d = (n % 10) as u8;
        push_char(&mut s, (48u8 + d) as char);
        s
    }
}

/// An eight-digit code for a number in `[10000000, 99999999)`.
pub open spec fn is_backup_code(s: Seq<char>) -> bool {
    exists|n: u32| 10000000 <= n < 99999999 && s == decimal_fixed(n as nat, 8)
}

/// `count` random eight-digit backup codes.
pub fn generate_backup_codes(count: usize) -> (r: Vec<String>)
    ensures
        r@.len() == count,
        forall|i: int| 0 <= i < count ==> is_backup_code(#[trigger] r@[i]@),
{
    let mut codes: Vec<String> = Vec::new();
    while codes.len() < count
        invariant
            codes@.len() <= count,
            forall|i: int| 0 <= i < codes@.len() ==> is_backup_code(#[trigger] codes@[i]@),
        decreases count - codes@.len(),
    {
        let n = random_in_range(10000000, 99999999);
        let code = decimal_fixed_exec(n, 8);
        codes.push(code);
        assert(is_backup_code(codes@[codes@.len() - 1]@));
    }
    codes
}

/// The `otpauth://` URI that authenticator apps scan.
pub open spec fn otpauth_uri(secret: Seq<char>, email: Seq<char>, issuer: Seq<char>) -> Seq<char> {
    let enc = |s: Seq<char>| percent_encoded(encode_utf8(s));
    "otpauth://totp/"@ + enc(issuer) + ":"@ + enc(email) + "?secret="@ + enc(secret) + "&issuer="@
        + enc(issuer) + "&algorithm=SHA1&digits=6&period=30"@
}

pub fn generate_otpauth_uri(secret: &str, email: &str, issuer: &str) -> (r: String)
    ensures
        r@ == otpauth_uri(secret@, email@, issuer@),
{
    let mut uri = owned("otpauth://totp/");
    let i = url_encode(issuer);
    push_str(&mut uri, i.as_str());
    push_str(&mut uri, ":");
    let e = url_encode(email);
    push_str(&mut uri, e.as_str());
    push_str(&mut uri, "?secret=");
    let s = url_encode(secret);
    push_str(&mut uri, s.as_str());
    push_str(&mut uri, "&issuer=");
    push_str(&mut uri, i.as_str());
    push_str(&mut uri, "&algorithm=SHA1&digits=6&period=30");
    uri
}

/// What enabling TOTP returns to the user.
#[derive(Debug)]
pub struct EnableTotpResponse {
    pub secret: String,
    pub qr_code_uri: String,
    pub backup_codes: Vec<String>,
}

#[derive(Debug)]
pub struct VerifyTotpRequest {
    pub code: String,
}

#[derive(Debug)]
pub struct DisableTotpRequest {
    pub code: String,
}

} // verus!
