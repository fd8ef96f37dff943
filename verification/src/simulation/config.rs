//! Settings of a simulation.
use std::sync::atomic::AtomicBool;
use std::sync::Arc;

use vstd::prelude::*;
use vstd::string::*;

use crate::relay::config::default_qos;
use crate::relay::config::RelayConfig;
use crate::relay::config::RelayQosConfig;
use crate::relay::config::SECOND;
use crate::text::copy_opt;
use crate::text::opt_text;
use crate::text::same;

verus! {

/// Hours in a simulated day.
pub const SIMULATION_HOURS_PER_DAY: usize = 24;

pub fn default_seconds_per_step() -> (r: u64)
    ensures
        r == 60,
{
    60
}

pub fn default_group_count() -> (r: usize)
    ensures
        r == 3,
{
    3
}

/// The precision of a location that names none.
pub fn default_geo_precision() -> (r: String)
    ensures
        r@ == "city"@,
{
    "city".to_owned()
}

/// Whether messages travel in the clear.
#[derive(Clone, Copy, Debug, PartialEq, Eq, Structural)]
pub enum MessageEncryption {
    Plaintext,
    Encrypted,
}

/// How messages travel where a simulation does not say.
pub fn effective_encryption(encryption: Option<MessageEncryption>) -> (r: MessageEncryption)
    ensures
        r == (match encryption {
            Some(e) => e,
            None => MessageEncryption::Encrypted,
        }),
{
    match encryption {
        Some(e) => e,
        None => MessageEncryption::Encrypted,
    }
}

/// What kind of message a node plans to send.
#[derive(Clone, Copy, Debug, PartialEq, Eq, Structural)]
pub enum MessageType {
    Direct,
    Public,
    Group,
}

/// How many groups each node should be a member of.
#[derive(Clone, Copy, Debug, PartialEq, Eq, Structural)]
pub enum GroupMembershipsPerNode {
    /// Each node is in a fixed number of groups.
    Fixed { count: usize },
    /// Each node is in a random number of groups.
    Uniform { min: usize, max: usize },
}

impl Default for GroupMembershipsPerNode {
    fn default() -> (r: Self)
        ensures
            r == (GroupMembershipsPerNode::Fixed { count: 1 }),
    {
        GroupMembershipsPerNode::Fixed { count: 1 }
    }
}

/// The number of pieces of size `piece` that it takes to cover `whole`.
pub open spec fn pieces(whole: int, piece: int) -> int {
    (whole + piece - 1) / piece
}

/// The number of steps of a simulation: as many as its duration takes, where it has one, and
/// always at least one.
pub fn effective_steps(steps: usize, duration_seconds: Option<u64>, seconds_per_step: u64) -> (r:
    usize)
    ensures
        r >= 1,
        match duration_seconds {
            None => r == (if steps == 0 {
                1
            } else {
                steps
            }),
            Some(d) => {
                let s = if seconds_per_step == 0 {
                    1
                } else {
                    seconds_per_step as int
                };
                let n = pieces(d as int, s);
                r == (if n == 0 {
                    1
                } else if n > usize::MAX {
                    usize::MAX as int
                } else {
                    n
                })
            },
        },
{
    match duration_seconds {
        None => if steps == 0 {
            1
        } else {
            steps
        },
        Some(d) => {
            let s: u64 = if seconds_per_step == 0 {
                1
            } else {
                seconds_per_step
            };
            let q: u64 = d / s;
            let rest: u64 = d % s;
            proof {
                vstd::arithmetic::div_mod::lemma_fundamental_div_mod(d as int, s as int);
                let whole = d as int + s as int - 1;
                assert(s * q + rest == d);
                if rest == 0 {
                    vstd::arithmetic::div_mod::lemma_fundamental_div_mod_converse(
                        whole,
                        s as int,
                        q as int,
                        s - 1,
                    );
                } else {
                    assert(whole == s * (q + 1) + (rest - 1)) by (nonlinear_arith)
                        requires
                            s * q + rest == d,
                            whole == d + s - 1,
                    ;
                    vstd::arithmetic::div_mod::lemma_fundamental_div_mod_converse(
                        whole,
                        s as int,
                        q + 1,
                        rest - 1,
                    );
                }
                if rest > 0 {
                    assert(q < u64::MAX) by (nonlinear_arith)
                        requires
                            s * q + rest == d,
                            rest > 0,
                            s >= 1,
                            d <= u64::MAX,
                    ;
                }
            }
            let n: u64 = if rest == 0 {
                q
            } else {
                q + 1
            };
            if n == 0 {
                1
            } else if n > usize::MAX as u64 {
                usize::MAX
            } else {
                n as usize
            }
        },
    }
}

/// The steps of a simulation cover its duration, and no step is spare.
pub proof fn law_steps_cover_duration(duration: nat, seconds_per_step: nat)
    requires
        seconds_per_step >= 1,
    ensures
        pieces(duration as int, seconds_per_step as int) * seconds_per_step >= duration,
        duration > 0 ==> (pieces(duration as int, seconds_per_step as int) - 1) * seconds_per_step
            < duration,
{
    let s = seconds_per_step as int;
    let whole = duration + s - 1;
    let q = whole / s;
    vstd::arithmetic::div_mod::lemma_fundamental_div_mod(whole, s);
    vstd::arithmetic::div_mod::lemma_mod_bound(whole, s);
    let rest = whole % s;
    assert(whole == s * q + rest);
    assert(q * s == s * q) by (nonlinear_arith);
    assert((q - 1) * s == s * q - s) by (nonlinear_arith);
}

// ---------------------------------------------------------------------------
// The relay of a simulation
// ---------------------------------------------------------------------------

/// Settings of the relay as they stand in a scenario.
pub struct RelayConfigToml {
    pub ttl_seconds: u64,
    pub max_messages: usize,
    pub max_bytes: usize,
    pub retry_backoff_seconds: Vec<u64>,
    pub peer_log_window_seconds: Option<u64>,
    pub peer_log_interval_seconds: Option<u64>,
}

/// Seconds in nanoseconds.
pub open spec fn in_nanos(seconds: u64) -> u128 {
    (seconds * SECOND) as u128
}

fn to_nanos(seconds: u64) -> (r: u128)
    ensures
        r == in_nanos(seconds),
        r == seconds * SECOND,
{
    seconds as u128 * SECOND
}

impl RelayConfigToml {
    /// The relay's settings. Peers are logged every 30 seconds, over a window of 60, where the
    /// scenario does not say otherwise.
    pub fn into_relay_config(self) -> (r: RelayConfig)
        ensures
            r.ttl == self.ttl_seconds * SECOND,
            r.max_messages == self.max_messages,
            r.max_bytes == self.max_bytes,
            r.retry_backoff@ == self.retry_backoff_seconds@.map_values(|s: u64| in_nanos(s)),
            r.peer_log_window == (match self.peer_log_window_seconds {
                Some(s) => s * SECOND,
                None => 60 * SECOND,
            }),
            r.peer_log_interval == (match self.peer_log_interval_seconds {
                Some(s) => s * SECOND,
                None => 30 * SECOND,
            }),
            r.qos == default_qos(),
            r.blob_max_chunk_bytes == 524_288,
            r.blob_daily_quota_bytes == 524_288_000,
    {
        let mut retry_backoff: Vec<u128> = Vec::new();
        let seconds = self.retry_backoff_seconds;
        let ghost f = |s: u64| in_nanos(s);
        let mut i: usize = 0;
        while i < seconds.len()
            invariant
                i <= seconds@.len(),
                f == (|s: u64| in_nanos(s)),
                retry_backoff@ == seconds@.take(i as int).map_values(f),
            decreases seconds@.len() - i,
        {
            let ghost before = retry_backoff@;
            retry_backoff.push(to_nanos(seconds[i]));
            i = i + 1;
            proof {
                assert(retry_backoff@ =~= seconds@.take(i as int).map_values(f));
            }
        }
        proof {
            assert(seconds@.take(i as int) =~= seconds@);
        }
        RelayConfig {
            ttl: to_nanos(self.ttl_seconds),
            max_messages: self.max_messages,
            max_bytes: self.max_bytes,
            retry_backoff,
            peer_log_window: to_nanos(
                match self.peer_log_window_seconds {
                    Some(s) => s,
                    None => 60,
                },
            ),
            peer_log_interval: to_nanos(
                match self.peer_log_interval_seconds {
                    Some(s) => s,
                    None => 30,
                },
            ),
            pause_flag: Arc::new(AtomicBool::new(false)),
            qos: RelayQosConfig::default(),
            blob_max_chunk_bytes: 512 * 1024,
            blob_daily_quota_bytes: 500 * 1024 * 1024,
        }
    }
}

// ---------------------------------------------------------------------------
// Locations
// ---------------------------------------------------------------------------

/// How precise a location is.
#[derive(Clone, Copy, Debug, PartialEq, Eq, Structural)]
pub enum GeoPrecision {
    Nowhere,
    Country,
    Region,
    City,
    Neighborhood,
    Exact,
}

/// The precision of a given name.
pub open spec fn precision_named(name: Seq<char>) -> Option<GeoPrecision> {
    if name == "none"@ {
        Some(GeoPrecision::Nowhere)
    } else if name == "country"@ {
        Some(GeoPrecision::Country)
    } else if name == "region"@ {
        Some(GeoPrecision::Region)
    } else if name == "city"@ {
        Some(GeoPrecision::City)
    } else if name == "neighborhood"@ {
        Some(GeoPrecision::Neighborhood)
    } else if name == "exact"@ {
        Some(GeoPrecision::Exact)
    } else {
        None
    }
}

impl GeoPrecision {
    /// Reads a precision.
    pub fn parse(name: &str) -> (r: Option<GeoPrecision>)
        ensures
            r == precision_named(name@),
    {
        if same(name, "none") {
            Some(GeoPrecision::Nowhere)
        } else if same(name, "country") {
            Some(GeoPrecision::Country)
        } else if same(name, "region") {
            Some(GeoPrecision::Region)
        } else if same(name, "city") {
            Some(GeoPrecision::City)
        } else if same(name, "neighborhood") {
            Some(GeoPrecision::Neighborhood)
        } else if same(name, "exact") {
            Some(GeoPrecision::Exact)
        } else {
            None
        }
    }
}

/// Where simulated peers are, but for coordinates.
pub struct SimGeoConfig {
    pub country_code: String,
    pub region: Option<String>,
    pub city: Option<String>,
    pub geohash: Option<String>,
    pub post_precision: String,
    pub query_precision: String,
}

/// Where a post comes from, but for coordinates.
pub struct GeoLocation {
    pub precision: GeoPrecision,
    pub country_code: Option<String>,
    pub region: Option<String>,
    pub city: Option<String>,
    pub geohash: Option<String>,
}

/// From where posts are wanted.
pub struct GeoQuery {
    pub geohash_prefix: Option<String>,
    pub country_code: Option<String>,
    pub region: Option<String>,
    pub city: Option<String>,
}

/// The first characters of a text, up to `n` of them.
pub open spec fn head(s: Seq<char>, n: int) -> Seq<char> {
    if s.len() <= n {
        s
    } else {
        s.take(n)
    }
}

fn take_head(s: &str, n: usize) -> (r: String)
    ensures
        r@ == head(s@, n as int),
{
    let len: usize = s.unicode_len();
    if len <= n {
        s.to_owned()
    } else {
        let t = s.substring_char(0, n);
        assert(t@ =~= s@.take(n as int));
        t.to_owned()
    }
}

impl SimGeoConfig {
    /// Where a post comes from: nowhere if the precision cannot be read or is none.
    pub fn post_geo_location(&self) -> (r: Option<GeoLocation>)
        ensures
            match precision_named(self.post_precision@) {
                None => r is None,
                Some(GeoPrecision::Nowhere) => r is None,
                Some(p) => r == Some(
                    GeoLocation {
                        precision: p,
                        country_code: Some(self.country_code),
                        region: self.region,
                        city: self.city,
                        geohash: self.geohash,
                    },
                ),
            },
    {
        match GeoPrecision::parse(self.post_precision.as_str()) {
            None => None,
            Some(GeoPrecision::Nowhere) => None,
            Some(precision) => Some(
                GeoLocation {
                    precision,
                    country_code: Some(self.country_code.clone()),
                    region: copy_opt(&self.region),
                    city: copy_opt(&self.city),
                    geohash: copy_opt(&self.geohash),
                },
            ),
        }
    }

    /// From where posts are wanted: by country, region and city as far as the precision goes, and
    /// beyond that by the first five characters of the geohash.
    pub fn query_geo(&self) -> (r: Option<GeoQuery>)
        ensures
            match precision_named(self.query_precision@) {
                None => r is None,
                Some(GeoPrecision::Nowhere) => r is None,
                Some(p) => {
                    let near = p == GeoPrecision::Neighborhood || p == GeoPrecision::Exact;
                    &&& r is Some
                    &&& opt_text(r->0.geohash_prefix) == (if near {
                        match self.geohash {
                            Some(g) => Some(head(g@, 5)),
                            None => None,
                        }
                    } else {
                        None
                    })
                    &&& r->0.country_code == (if near {
                        None
                    } else {
                        Some(self.country_code)
                    })
                    &&& r->0.region == (if p == GeoPrecision::Region || p == GeoPrecision::City {
                        self.region
                    } else {
                        None
                    })
                    &&& r->0.city == (if p == GeoPrecision::City {
                        self.city
                    } else {
                        None
                    })
                },
            },
    {
        match GeoPrecision::parse(self.query_precision.as_str()) {
            None => None,
            Some(GeoPrecision::Nowhere) => None,
            Some(GeoPrecision::Country) => Some(
                GeoQuery {
                    geohash_prefix: None,
                    country_code: Some(self.country_code.clone()),
                    region: None,
                    city: None,
                },
            ),
            Some(GeoPrecision::Region) => Some(
                GeoQuery {
                    geohash_prefix: None,
                    country_code: Some(self.country_code.clone()),
                    region: copy_opt(&self.region),
                    city: None,
                },
            ),
            Some(GeoPrecision::City) => Some(
                GeoQuery {
                    geohash_prefix: None,
                    country_code: Some(self.country_code.clone()),
                    region: copy_opt(&self.region),
                    city: copy_opt(&self.city),
                },
            ),
            Some(GeoPrecision::Neighborhood) | Some(GeoPrecision::Exact) => Some(
                GeoQuery {
                    geohash_prefix: match &self.geohash {
                        Some(g) => Some(take_head(g.as_str(), 5)),
                        None => None,
                    },
                    country_code: None,
                    region: None,
                    city: None,
                },
            ),
        }
    }
}

// ---------------------------------------------------------------------------
// Time of day
// ---------------------------------------------------------------------------

/// The hour of the day in a time zone, given the hours that have gone by.
pub fn hour_of_day(hours: i64, timezone_offset_hours: i32) -> (r: usize)
    requires
        i64::MIN + 0x8000_0000 <= hours <= i64::MAX - 0x7fff_ffff,
    ensures
        r == (hours + timezone_offset_hours) % 24,
        r < SIMULATION_HOURS_PER_DAY,
{
    let hour: i64 = hours + timezone_offset_hours as i64;
    let rest: i64 = hour % 24;
    if rest < 0 {
        (rest + 24) as usize
    } else {
        rest as usize
    }
}

} // verus!
