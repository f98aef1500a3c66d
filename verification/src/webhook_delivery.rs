//! Signed webhook delivery: the request signature and the retry schedule.
//!
//! A delivery is attempted at most three times; after a failed attempt the
//! sender waits, starting at one second and doubling up to a minute.

use vstd::prelude::*;
use vstd::utf8::encode_utf8;
use crate::crypto::{hex_encode, hex_lower, hmac_sha256, hmac_sha256_of, lemma_hex_lower_len};
use crate::text::{owned, push_str};

verus! {

broadcast use vstd::string::group_string_axioms;

/// How many times a delivery is attempted.
pub const MAX_RETRIES: u32 = 3;

/// The wait after the first failed attempt, in seconds.
pub const INITIAL_BACKOFF_SECS: u64 = 1;

/// The longest wait between attempts, in seconds.
pub const MAX_BACKOFF_SECS: u64 = 60;

/// The hex-encoded HMAC-SHA256 of the body under the secret's UTF-8 bytes.
pub open spec fn signature_of(secret: Seq<char>, body: Seq<u8>) -> Seq<char> {
    hex_lower(hmac_sha256_of(encode_utf8(secret), body))
}

pub fn compute_signature(secret: &str, body: &[u8]) -> (r: String)
    ensures
        r@ == signature_of(secret@, body@),
        r@.len() == 64,
{
    let tag = hmac_sha256(secret.as_bytes(), body);
    let sig = hex_encode(tag.as_slice());
    proof {
        lemma_hex_lower_len(tag@);
    }
    sig
}

/// The value of the signature header: `sha256=` and the signature.
pub fn signature_header(secret: &str, body: &[u8]) -> (r: String)
    ensures
        r@ == "sha256="@ + signature_of(secret@, body@),
{
    let mut header = owned("sha256=");
    let sig = compute_signature(secret, body);
    push_str(&mut header, sig.as_str());
    header
}

/// The wait after `backoff`: doubled, at most a minute.
pub open spec fn next_backoff(backoff: u64) -> u64 {
    if backoff * 2 > MAX_BACKOFF_SECS {
        MAX_BACKOFF_SECS
    } else {
        (backoff * 2) as u64
    }
}

/// What the sender does after an attempt.
#[derive(Debug, Clone, Copy, PartialEq, Eq, Structural)]
pub enum DeliveryStep {
    /// The endpoint accepted the event.
    Delivered,
    /// Wait this many seconds, then attempt again.
    RetryAfter(u64),
    /// The last attempt failed; the delivery is given up.
    Failed,
}

/// Progress of one delivery: attempts made so far and the next wait.
#[derive(Debug, Clone, Copy, PartialEq, Eq, Structural)]
pub struct RetrySchedule {
    pub attempts: u32,
    pub backoff_secs: u64,
}

impl RetrySchedule {
    /// No attempt made yet; the first wait is one second.
    pub fn new() -> (r: Self)
        ensures
            r == (RetrySchedule { attempts: 0, backoff_secs: INITIAL_BACKOFF_SECS }),
    {
        RetrySchedule { attempts: 0, backoff_secs: INITIAL_BACKOFF_SECS }
    }

    /// Records the outcome of an attempt and says what comes next.
    pub fn record(&mut self, succeeded: bool) -> (step: DeliveryStep)
        requires
            old(self).attempts < MAX_RETRIES,
            old(self).backoff_secs <= MAX_BACKOFF_SECS,
        ensures
            final(self).attempts == old(self).attempts + 1,
            final(self).backoff_secs <= MAX_BACKOFF_SECS,
            succeeded ==> step == DeliveryStep::Delivered && final(self).backoff_secs
                == old(self).backoff_secs,
            !succeeded && old(self).attempts + 1 < MAX_RETRIES ==> step == DeliveryStep::RetryAfter(
                old(self).backoff_secs,
            ) && final(self).backoff_secs == next_backoff(old(self).backoff_secs),
            !succeeded && old(self).attempts + 1 == MAX_RETRIES ==> step == DeliveryStep::Failed
                && final(self).backoff_secs == old(self).backoff_secs,
    {
        self.attempts = self.attempts + 1;
        if succeeded {
            DeliveryStep::Delivered
        } else if self.attempts < MAX_RETRIES {
            let wait = self.backoff_secs;
            let doubled = self.backoff_secs * 2;
            self.backoff_secs = if doubled > MAX_BACKOFF_SECS {
                MAX_BACKOFF_SECS
            } else {
                doubled
            };
            DeliveryStep::RetryAfter(wait)
        } else {
            DeliveryStep::Failed
        }
    }

    /// Whether another attempt is allowed.
    pub fn can_attempt(&self) -> (r: bool)
        ensures
            r == (self.attempts < MAX_RETRIES),
    {
        self.attempts < MAX_RETRIES
    }
}

} // verus!
