//! Limits and settings of the relay. Durations and instants are counted in nanoseconds.
use std::sync::atomic::AtomicBool;
use std::sync::atomic::Ordering;
use std::sync::Arc;

use vstd::prelude::*;

verus! {

/// Nanoseconds in a second.
pub const SECOND: u128 = 1_000_000_000;

/// Nanoseconds in a millisecond.
pub const MILLISECOND: u128 = 1_000_000;

/// How many envelopes a WebSocket subscriber may fall behind.
pub const WS_BROADCAST_CAPACITY: usize = 128;

/// Maximum HTTP body size of a blob upload: a base64-encoded 256 KiB chunk with JSON framing.
pub const BLOB_UPLOAD_BODY_LIMIT: usize = 524_288;

/// Per-tier limits for per-sender-per-inbox quotas.
#[derive(Clone, Copy, Debug, PartialEq, Eq, Structural)]
pub struct TierLimits {
    /// Maximum number of envelopes from this sender currently in the inbox.
    pub max_envelopes: usize,
    /// Maximum total bytes from this sender currently in the inbox.
    pub max_bytes: usize,
}

/// QoS configuration for the relay.
#[derive(Clone, Copy, Debug, PartialEq, Eq, Structural)]
pub struct RelayQosConfig {
    /// Limits for Tier 1 (unknown / no reply observed).
    pub tier1: TierLimits,
    /// Limits for Tier 2 (acknowledged: the recipient has sent to the sender at some point).
    pub tier2: TierLimits,
    /// Limits for Tier 3 (active: bidirectional traffic within the window).
    pub tier3: TierLimits,
    /// How long bidirectional activity must be absent before Tier 3 falls back to Tier 2.
    pub bidirectional_window: u128,
}

/// The limits that hold where none are configured: 20 envelopes and 256 KiB, 100 and 2 MiB,
/// 500 and 10 MiB, and a window of a week.
pub open spec fn default_qos() -> RelayQosConfig {
    RelayQosConfig {
        tier1: TierLimits { max_envelopes: 20, max_bytes: 262_144 },
        tier2: TierLimits { max_envelopes: 100, max_bytes: 2_097_152 },
        tier3: TierLimits { max_envelopes: 500, max_bytes: 10_485_760 },
        bidirectional_window: 604_800_000_000_000,
    }
}

impl Default for RelayQosConfig {
    fn default() -> (r: Self)
        ensures
            r == default_qos(),
    {
        RelayQosConfig {
            tier1: TierLimits { max_envelopes: 20, max_bytes: 256 * 1024 },
            tier2: TierLimits { max_envelopes: 100, max_bytes: 2 * 1024 * 1024 },
            tier3: TierLimits { max_envelopes: 500, max_bytes: 10 * 1024 * 1024 },
            bidirectional_window: 7 * 24 * 3600 * SECOND,
        }
    }
}

/// Settings of the relay.
pub struct RelayConfig {
    /// Longest time an envelope is kept.
    pub ttl: u128,
    /// Most envelopes an inbox holds.
    pub max_messages: usize,
    /// Most bytes an inbox holds.
    pub max_bytes: usize,
    /// Waiting times between attempts to take the relay's lock.
    pub retry_backoff: Vec<u128>,
    pub peer_log_window: u128,
    pub peer_log_interval: u128,
    /// Whether log output is held back. Shared with the switch that sets it.
    pub pause_flag: Arc<AtomicBool>,
    pub qos: RelayQosConfig,
    /// Maximum size in bytes of a single base64-encoded encrypted chunk in an upload.
    pub blob_max_chunk_bytes: usize,
    /// Maximum bytes a single sender may upload per UTC day.
    pub blob_daily_quota_bytes: u64,
}

/// `std::sync::Arc::clone`: another handle on the same flag.
#[verifier::external_body]
fn share(flag: &Arc<AtomicBool>) -> (r: Arc<AtomicBool>)
    ensures
        r == *flag,
{
    Arc::clone(flag)
}

impl RelayConfig {
    /// The switch that holds back the log output of the relay with these settings.
    pub fn control(&self) -> (r: RelayControl)
        ensures
            r.flag() == self.pause_flag,
    {
        RelayControl::new(share(&self.pause_flag))
    }
}

/// The switch that holds back the relay's log output. It shares its flag with the settings of the
/// relay and with every clone of itself.
#[derive(Debug)]
pub struct RelayControl {
    pause_flag: Arc<AtomicBool>,
}

impl RelayControl {
    /// The flag that the switch sets.
    pub closed spec fn flag(&self) -> Arc<AtomicBool> {
        self.pause_flag
    }

    pub fn new(pause_flag: Arc<AtomicBool>) -> (r: Self)
        ensures
            r.flag() == pause_flag,
    {
        RelayControl { pause_flag }
    }

    /// Sets the flag, for all who share it. Others may set it at any time, so nothing is said of
    /// what is read from it afterwards.
    pub fn set_paused(&self, paused: bool) {
        self.pause_flag.store(paused, Ordering::SeqCst);
    }
}

impl Clone for RelayControl {
    fn clone(&self) -> (r: Self)
        ensures
            r.flag() == self.flag(),
    {
        RelayControl { pause_flag: share(&self.pause_flag) }
    }
}

/// How long to wait before the next attempt to take the relay's lock, after `failed`
/// attempts; nothing once every waiting time has been used.
pub fn retry_delay(config: &RelayConfig, failed: usize) -> (r: Option<u128>)
    requires
        failed >= 1,
    ensures
        r == if failed <= config.retry_backoff@.len() {
            Some(config.retry_backoff@[failed - 1])
        } else {
            None
        },
{
    if failed <= config.retry_backoff.len() {
        Some(config.retry_backoff[failed - 1])
    } else {
        None
    }
}

} // verus!
