//! WebSocket clients of the relay.
use vstd::prelude::*;
use vstd::string::*;

use crate::codec::json_number;
use crate::codec::json_number_at;
use crate::codec::json_string;
use crate::codec::json_string_at;
use crate::relay::state::touch_peer;
use crate::relay::state::touched;
use crate::relay::state::Peer;
use crate::relay::state::RelayStateInner;
use crate::relay::state::RelayView;
use crate::relay::state::WsClientInfo;
use crate::text::decimal;
use crate::text::opt_text;
use crate::text::same;
use crate::text::to_decimal;

verus! {

/// What is known of a client, by name.
pub struct ClientView {
    pub peer_id: Peer,
    pub ip: Option<Seq<char>>,
    pub web_ui_url: Option<Seq<char>>,
    pub version: Option<Seq<char>>,
    pub connected_at: u128,
}

pub open spec fn client_view(c: WsClientInfo) -> ClientView {
    ClientView {
        peer_id: c.peer_id@,
        ip: opt_text(c.ip),
        web_ui_url: opt_text(c.web_ui_url),
        version: opt_text(c.version),
        connected_at: c.connected_at,
    }
}

/// Enters a new connection of `recipient_id` from `ip`, and returns its number.
pub fn connect(inner: &mut RelayStateInner, recipient_id: &str, ip: String, now: u128) -> (id: u64)
    requires
        old(inner).tables_wf(),
        old(inner).next_conn_id < u64::MAX,
    ensures
        final(inner).tables_wf(),
        id == old(inner).next_conn_id,
        final(inner)@.ws_clients.contains_key(id),
        client_view(final(inner)@.ws_clients[id]) == (ClientView {
            peer_id: recipient_id@,
            ip: Some(ip@),
            web_ui_url: None,
            version: None,
            connected_at: now,
        }),
        final(inner)@ == (RelayView {
            ws_clients: old(inner)@.ws_clients.insert(id, final(inner)@.ws_clients[id]),
            next_conn_id: (id + 1) as u64,
            ..touched(old(inner)@, recipient_id@, now)
        }),
{
    touch_peer(inner, recipient_id, now);
    let id: u64 = inner.next_conn_id;
    inner.next_conn_id = id + 1;
    inner.ws_clients.insert(
        id,
        WsClientInfo {
            peer_id: recipient_id.to_owned(),
            ip: Some(ip),
            web_ui_url: None,
            version: None,
            connected_at: now,
        },
    );
    id
}

/// Removes a connection.
pub fn disconnect(inner: &mut RelayStateInner, id: u64)
    requires
        old(inner).tables_wf(),
    ensures
        final(inner).tables_wf(),
        final(inner)@ == (RelayView {
            ws_clients: old(inner)@.ws_clients.remove(id),
            ..old(inner)@
        }),
{
    let _gone = inner.ws_clients.remove(&id);
}

/// What a client says about itself when it connects.
pub struct Hello {
    pub version: Option<String>,
    pub web_ui_port: Option<u64>,
}

/// The address of a client's web interface.
pub open spec fn web_ui_address(ip: Seq<char>, port: u64) -> Seq<char> {
    "http://"@ + ip + ":"@ + decimal(port as nat)
}

/// What is known of a client once it has said hello.
pub open spec fn greeted(c: ClientView, version: Option<Seq<char>>, port: Option<u64>) -> ClientView {
    ClientView {
        version: if version is Some {
            version
        } else {
            c.version
        },
        web_ui_url: match port {
            Some(p) => Some(
                web_ui_address(
                    match c.ip {
                        Some(ip) => ip,
                        None => Seq::empty(),
                    },
                    p,
                ),
            ),
            None => c.web_ui_url,
        },
        ..c
    }
}

/// Enters what a client says about itself.
pub fn greet(inner: &mut RelayStateInner, id: u64, hello: Hello)
    requires
        old(inner).tables_wf(),
    ensures
        final(inner).tables_wf(),
        final(inner)@ == (RelayView { ws_clients: final(inner)@.ws_clients, ..old(inner)@ }),
        final(inner)@.ws_clients.dom() == old(inner)@.ws_clients.dom(),
        forall|k: u64|
            k != id && old(inner)@.ws_clients.contains_key(k)
                ==> #[trigger] final(inner)@.ws_clients[k] == old(inner)@.ws_clients[k],
        old(inner)@.ws_clients.contains_key(id) ==> client_view(final(inner)@.ws_clients[id])
            == greeted(
            client_view(old(inner)@.ws_clients[id]),
            opt_text(hello.version),
            hello.web_ui_port,
        ),
{
    let ghost before = inner@.ws_clients;
    match inner.ws_clients.remove(&id) {
        None => {
            assert(inner@.ws_clients =~= before);
        },
        Some(c) => {
            let version: Option<String> = match hello.version {
                Some(v) => Some(v),
                None => c.version,
            };
            let web_ui_url: Option<String> = match hello.web_ui_port {
                Some(port) => {
                    let mut url = "http://".to_owned();
                    match &c.ip {
                        Some(ip) => {
                            url.append(ip.as_str());
                        },
                        None => {
                            assert(url@ =~= url@ + Seq::empty());
                        },
                    }
                    url.append(":");
                    url.append(to_decimal(port).as_str());
                    Some(url)
                },
                None => c.web_ui_url,
            };
            inner.ws_clients.insert(
                id,
                WsClientInfo {
                    peer_id: c.peer_id,
                    ip: c.ip,
                    web_ui_url,
                    version,
                    connected_at: c.connected_at,
                },
            );
            assert(inner@.ws_clients.dom() =~= before.dom());
        },
    }
}

/// Reads the text of a client's message: what it says about itself, if it is a hello.
pub fn read_hello(text: &str) -> (r: Option<Hello>)
    ensures
        match r {
            Some(h) => {
                &&& json_string_at(text@, "/type"@) == Some("hello"@)
                &&& opt_text(h.version) == json_string_at(text@, "/version"@)
                &&& h.web_ui_port == json_number_at(text@, "/web_ui_port"@)
            },
            None => json_string_at(text@, "/type"@) != Some("hello"@),
        },
{
    match json_string(text, "/type") {
        Some(t) => if same(t.as_str(), "hello") {
            Some(
                Hello {
                    version: json_string(text, "/version"),
                    web_ui_port: json_number(text, "/web_ui_port"),
                },
            )
        } else {
            None
        },
        None => None,
    }
}

/// What can happen on a connection.
pub enum WsInput {
    /// An envelope for the client, serialised; nothing where that failed.
    Envelope(Option<String>),
    /// The client fell behind by so many envelopes.
    Lagged(u64),
    /// No more envelopes will come.
    Closed,
    /// The client sent text.
    Text(String),
    /// The client sent a ping.
    Ping(Vec<u8>),
    /// The client closed the connection, or it broke.
    Gone,
    /// The client sent something else.
    Other,
}

/// What to do about it.
pub enum WsAction {
    /// Send text to the client, and stop if that fails.
    Send(String),
    /// Answer a ping, and stop if that fails.
    Pong(Vec<u8>),
    /// Log that the client fell behind by so many envelopes.
    LogLag(u64),
    /// Enter what the client says about itself.
    Greet(Hello),
    Stop,
    Nothing,
}

/// Decides what to do about an event on a connection.
pub fn ws_step(input: WsInput) -> (r: WsAction)
    ensures
        match input {
            WsInput::Envelope(Some(text)) => r matches WsAction::Send(t) && t == text,
            WsInput::Envelope(None) => r is Nothing,
            WsInput::Lagged(n) => r matches WsAction::LogLag(m) && m == n,
            WsInput::Closed => r is Stop,
            WsInput::Text(text) => match r {
                WsAction::Greet(h) => {
                    &&& json_string_at(text@, "/type"@) == Some("hello"@)
                    &&& opt_text(h.version) == json_string_at(text@, "/version"@)
                    &&& h.web_ui_port == json_number_at(text@, "/web_ui_port"@)
                },
                WsAction::Nothing => json_string_at(text@, "/type"@) != Some("hello"@),
                _ => false,
            },
            WsInput::Ping(data) => r matches WsAction::Pong(d) && d == data,
            WsInput::Gone => r is Stop,
            WsInput::Other => r is Nothing,
        },
{
    match input {
        WsInput::Envelope(Some(text)) => WsAction::Send(text),
        WsInput::Envelope(None) => WsAction::Nothing,
        WsInput::Lagged(n) => WsAction::LogLag(n),
        WsInput::Closed => WsAction::Stop,
        WsInput::Text(text) => match read_hello(text.as_str()) {
            Some(h) => WsAction::Greet(h),
            None => WsAction::Nothing,
        },
        WsInput::Ping(data) => WsAction::Pong(data),
        WsInput::Gone => WsAction::Stop,
        WsInput::Other => WsAction::Nothing,
    }
}

} // verus!
