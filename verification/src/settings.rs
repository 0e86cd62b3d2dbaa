//! The configuration surface: the limits and intervals that the embedding
//! application chooses for a local identity.

use vstd::prelude::*;

use crate::wire::PROTECTED_OVERHEAD;

verus! {

/// The smallest datagram size a session can work with: every handshake
/// message fits it.
pub const MIN_MTU: usize = 128;

/// The largest datagram size a session can be told to fill.
pub const MAX_MTU: usize = 65535;

/// The highest usage ceiling that can be configured. It keeps every counter
/// far from the end of its range.
pub const MAX_USES: u64 = 0x4000_0000_0000_0000;

/// The longest interval that can be configured, in milliseconds.
pub const MAX_INTERVAL_MS: i64 = 0x1000_0000_0000;

/// The most sessions a context holds at one time.
pub const MAX_SESSIONS: usize = 1024;

/// How long an incomplete message is kept before it is dropped, in
/// milliseconds.
pub const REASSEMBLY_TIMEOUT_MS: i64 = 10000;

/// The limits and intervals of one local identity.
#[derive(Clone, Copy, Debug, PartialEq, Eq, Structural)]
pub struct Settings {
    /// The largest datagram that may be emitted, in bytes.
    pub mtu: usize,
    /// The number of datagrams under one key after which a ratchet is due.
    pub rekey_after_uses: u64,
    /// The number of datagrams under one key at which the session expires.
    pub expire_after_uses: u64,
    /// The age of a key, in milliseconds, after which a ratchet is due.
    pub rekey_after_time_ms: i64,
    /// The most that is added to that age at random, in milliseconds.
    pub rekey_max_jitter_ms: u32,
    /// How long a handshake may take before it is given up, in milliseconds.
    pub negotiation_timeout_ms: i64,
    /// How long to wait before an unanswered message is sent again, in
    /// milliseconds.
    pub retry_interval_ms: i64,
}

impl Settings {
    /// Whether the values make a usable configuration: a datagram size the
    /// protocol fits into, a ratchet threshold below the usage ceiling, and
    /// positive intervals within range.
    pub open spec fn wf(&self) -> bool {
        &&& MIN_MTU <= self.mtu <= MAX_MTU
        &&& 0 < self.rekey_after_uses <= self.expire_after_uses <= MAX_USES
        &&& 0 < self.rekey_after_time_ms <= MAX_INTERVAL_MS
        &&& 0 < self.negotiation_timeout_ms <= MAX_INTERVAL_MS
        &&& 0 < self.retry_interval_ms <= MAX_INTERVAL_MS
    }

    /// The settings with the given values, or `None` where they make no
    /// usable configuration.
    pub fn new(
        mtu: usize,
        rekey_after_uses: u64,
        expire_after_uses: u64,
        rekey_after_time_ms: i64,
        rekey_max_jitter_ms: u32,
        negotiation_timeout_ms: i64,
        retry_interval_ms: i64,
    ) -> (settings: Option<Settings>)
        ensures
            match settings {
                Some(s) => s.wf() && s == (Settings {
                    mtu,
                    rekey_after_uses,
                    expire_after_uses,
                    rekey_after_time_ms,
                    rekey_max_jitter_ms,
                    negotiation_timeout_ms,
                    retry_interval_ms,
                }),
                None => !(Settings {
                    mtu,
                    rekey_after_uses,
                    expire_after_uses,
                    rekey_after_time_ms,
                    rekey_max_jitter_ms,
                    negotiation_timeout_ms,
                    retry_interval_ms,
                }).wf(),
            },
    {
        let settings = Settings {
            mtu,
            rekey_after_uses,
            expire_after_uses,
            rekey_after_time_ms,
            rekey_max_jitter_ms,
            negotiation_timeout_ms,
            retry_interval_ms,
        };
        if mtu < MIN_MTU || mtu > MAX_MTU {
            return None;
        }
        if rekey_after_uses == 0 || rekey_after_uses > expire_after_uses || expire_after_uses
            > MAX_USES {
            return None;
        }
        if rekey_after_time_ms <= 0 || rekey_after_time_ms > MAX_INTERVAL_MS {
            return None;
        }
        if negotiation_timeout_ms <= 0 || negotiation_timeout_ms > MAX_INTERVAL_MS {
            return None;
        }
        if retry_interval_ms <= 0 || retry_interval_ms > MAX_INTERVAL_MS {
            return None;
        }
        Some(settings)
    }

    /// The number of message bytes that fit one datagram.
    pub open spec fn spec_usable_payload(&self) -> nat {
        (self.mtu - PROTECTED_OVERHEAD) as nat
    }

    /// The number of message bytes that fit one datagram.
    pub fn usable_payload(&self) -> (usable: usize)
        requires
            self.wf(),
        ensures
            usable == self.spec_usable_payload(),
            usable > 0,
    {
        self.mtu - PROTECTED_OVERHEAD
    }

    /// The age at which a key is due for a ratchet, given the random draw
    /// that spreads ratchets of many sessions apart.
    pub open spec fn spec_rekey_age(&self, draw: u64) -> i64 {
        (self.rekey_after_time_ms + (draw as int) % (self.rekey_max_jitter_ms + 1)) as i64
    }

    /// Whether `age` is an age that a key may be given: the configured age
    /// plus a jitter of at most the configured bound.
    pub open spec fn spec_rekey_age_allowed(&self, age: i64) -> bool {
        self.rekey_after_time_ms <= age <= self.rekey_after_time_ms + self.rekey_max_jitter_ms
    }

    /// The age at which a key is due for a ratchet: the configured age plus
    /// a jitter of at most the configured bound, chosen by `draw`.
    pub fn rekey_age(&self, draw: u64) -> (age: i64)
        requires
            self.wf(),
        ensures
            age == self.spec_rekey_age(draw),
            self.spec_rekey_age_allowed(age),
    {
        let jitter: u64 = draw % (self.rekey_max_jitter_ms as u64 + 1);
        self.rekey_after_time_ms + (jitter as i64)
    }
}

} // verus!
