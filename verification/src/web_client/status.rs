//! The state of the client: health, the relay, connected browsers, the QR code and locations.
use vstd::prelude::*;
use vstd::string::*;

use crate::codec::qr_picture;
use crate::codec::qr_svg;
use crate::simulation::config::GeoPrecision;
use crate::storage::rows::StoredKeypair;
use crate::text::copy_opt;
use crate::web_client::api::api_error;
use crate::web_client::api::refusal;
use crate::web_client::api::refused_as;
use crate::web_client::api::ApiError;
use crate::web_client::api::INTERNAL_ERROR;
use crate::web_client::api::SERVICE_UNAVAILABLE;
use crate::web_client::config::MAX_WS_CONNECTIONS;
use crate::web_client::state::WsEvent;

verus! {

// ---------------------------------------------------------------------------
// Health
// ---------------------------------------------------------------------------

/// How the client is doing.
#[derive(Debug)]
pub struct Health {
    pub peer_id: String,
    pub encryption_public_key: String,
    pub relay: String,
    pub relay_connected: bool,
    pub peers: usize,
    pub has_messages: bool,
}

/// How the client is doing, given how many peers it knows and how many of its newest message were
/// found.
pub fn health(
    own: &StoredKeypair,
    relay_url: &Option<String>,
    relay_connected: bool,
    peers: usize,
    messages: usize,
) -> (r: Health)
    ensures
        r.peer_id == own.id,
        r.encryption_public_key == own.public_key_hex,
        r.relay@ == (match relay_url {
            Some(u) => u@,
            None => "none"@,
        }),
        r.relay_connected == relay_connected,
        r.peers == peers,
        r.has_messages == (messages > 0),
{
    Health {
        peer_id: own.id.clone(),
        encryption_public_key: own.public_key_hex.clone(),
        relay: match relay_url {
            Some(u) => u.clone(),
            None => "none".to_owned(),
        },
        relay_connected,
        peers,
        has_messages: messages > 0,
    }
}

/// What browsers are told after an attempt to reach the relay: when it is reached again, and
/// whenever it is not reached.
pub fn relay_status(reached: bool, was_connected: bool, relay_url: &Option<String>) -> (r: Option<
    WsEvent,
>)
    ensures
        r == (if reached && was_connected {
            None
        } else {
            Some(WsEvent::RelayStatus { connected: reached, relay_url: *relay_url })
        }),
{
    if reached && was_connected {
        None
    } else {
        Some(WsEvent::RelayStatus { connected: reached, relay_url: copy_opt(relay_url) })
    }
}

// ---------------------------------------------------------------------------
// Browsers
// ---------------------------------------------------------------------------

/// Refuses a browser where as many are connected as may be.
pub fn check_connections(connected: usize) -> (r: Result<(), ApiError>)
    ensures
        if connected >= MAX_WS_CONNECTIONS {
            refused_as(
                r,
                refusal(SERVICE_UNAVAILABLE, "too many WebSocket connections (max 8)"@),
            )
        } else {
            r is Ok
        },
{
    if connected >= MAX_WS_CONNECTIONS {
        Err(api_error(SERVICE_UNAVAILABLE, "too many WebSocket connections (max 8)"))
    } else {
        Ok(())
    }
}

/// What happens on the connection of a browser.
#[derive(Clone, Copy, Debug, PartialEq, Eq, Structural)]
pub enum SocketInput {
    /// There is an event to tell.
    Event,
    /// The browser was too slow for a number of events.
    Lagged(u64),
    /// There will be no more events.
    NoMoreEvents,
    /// The browser has gone.
    Gone,
    Ping,
    /// The browser says something else.
    Other,
}

/// What is done about it.
#[derive(Clone, Copy, Debug, PartialEq, Eq, Structural)]
pub enum SocketOutput {
    TellEvent,
    /// Tell the browser how many events it missed, so that it asks for all again.
    TellMissed(u64),
    Pong,
    Nothing,
    Close,
}

/// Decides what is done about what happens on the connection of a browser.
pub fn socket_step(input: SocketInput) -> (r: SocketOutput)
    ensures
        r == (match input {
            SocketInput::Event => SocketOutput::TellEvent,
            SocketInput::Lagged(n) => SocketOutput::TellMissed(n),
            SocketInput::NoMoreEvents => SocketOutput::Close,
            SocketInput::Gone => SocketOutput::Close,
            SocketInput::Ping => SocketOutput::Pong,
            SocketInput::Other => SocketOutput::Nothing,
        }),
{
    match input {
        SocketInput::Event => SocketOutput::TellEvent,
        SocketInput::Lagged(n) => SocketOutput::TellMissed(n),
        SocketInput::NoMoreEvents => SocketOutput::Close,
        SocketInput::Gone => SocketOutput::Close,
        SocketInput::Ping => SocketOutput::Pong,
        SocketInput::Other => SocketOutput::Nothing,
    }
}

// ---------------------------------------------------------------------------
// QR codes
// ---------------------------------------------------------------------------

/// The address under which a peer can be added by others.
pub open spec fn peer_uri_of(peer_id: Seq<char>, key: Seq<char>) -> Seq<char> {
    "tenet://peer/"@ + peer_id + "?key="@ + key
}

/// The address under which a peer can be added by others.
pub fn peer_uri(peer_id: &str, public_key_hex: &str) -> (r: String)
    ensures
        r@ == peer_uri_of(peer_id@, public_key_hex@),
{
    let mut uri = "tenet://peer/".to_owned();
    uri.append(peer_id);
    uri.append("?key=");
    uri.append(public_key_hex);
    uri
}

/// The answer to a request for a QR code, given what came of drawing it.
pub fn qr_answer(drawn: Result<String, String>) -> (r: Result<String, ApiError>)
    ensures
        match drawn {
            Ok(svg) => r matches Ok(s) && s == svg,
            Err(e) => refused_as(r, refusal(INTERNAL_ERROR, e@)),
        },
{
    match drawn {
        Ok(svg) => Ok(svg),
        Err(message) => Err(ApiError { status: INTERNAL_ERROR, message }),
    }
}

/// How wide and how high a QR code is at least, in pixels.
pub const QR_SIDE: u32 = 200;

/// Whether QR codes have a quiet zone around them.
pub const QR_QUIET_ZONE: bool = true;

/// The QR code by which a peer can be added by others, as SVG.
pub fn qr_code(own: &StoredKeypair) -> (r: Result<String, ApiError>)
    ensures
        match qr_picture(peer_uri_of(own.id@, own.public_key_hex@), QR_SIDE, QR_QUIET_ZONE) {
            Ok(svg) => r matches Ok(s) && s@ == svg,
            Err(e) => refused_as(r, refusal(INTERNAL_ERROR, e)),
        },
{
    let uri = peer_uri(own.id.as_str(), own.public_key_hex.as_str());
    qr_answer(qr_svg(uri.as_str(), QR_SIDE, QR_QUIET_ZONE))
}

// ---------------------------------------------------------------------------
// Locations
// ---------------------------------------------------------------------------

/// A change of how precisely the user's location is given, and of what it is.
#[derive(Debug)]
pub struct UpdateGeoSettingsRequest {
    pub default_precision: GeoPrecision,
    pub country_code: Option<String>,
    pub region: Option<String>,
    pub city: Option<String>,
    pub geohash: Option<String>,
}

/// How precisely the user's location is given, and what it is.
#[derive(Debug)]
pub struct GeoSettings {
    pub default_precision: GeoPrecision,
    pub country_code: Option<String>,
    pub region: Option<String>,
    pub city: Option<String>,
    pub geohash: Option<String>,
}

/// The settings that a change makes.
pub fn updated_geo_settings(req: &UpdateGeoSettingsRequest) -> (r: GeoSettings)
    ensures
        r == (GeoSettings {
            default_precision: req.default_precision,
            country_code: req.country_code,
            region: req.region,
            city: req.city,
            geohash: req.geohash,
        }),
{
    GeoSettings {
        default_precision: req.default_precision,
        country_code: copy_opt(&req.country_code),
        region: copy_opt(&req.region),
        city: copy_opt(&req.city),
        geohash: copy_opt(&req.geohash),
    }
}

} // verus!
