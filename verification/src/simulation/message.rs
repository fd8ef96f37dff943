//! Messages and envelopes of the simulator.
use vstd::prelude::*;
use vstd::string::*;

use crate::protocol::MessageKind;
use crate::text::copy_opt;

verus! {

/// A message as a simulated user sees it.
pub struct SimMessage {
    pub id: String,
    pub sender: String,
    pub recipient: String,
    pub body: String,
    /// The payload that travels, serialised.
    pub payload: String,
    pub message_kind: MessageKind,
    pub group_id: Option<String>,
}

impl View for SimMessage {
    type V = SimMessage;

    open spec fn view(&self) -> SimMessage {
        *self
    }
}

impl SimMessage {
    /// A second message with the same contents.
    pub fn copied(&self) -> (r: Self)
        ensures
            r == *self,
    {
        SimMessage {
            id: self.id.clone(),
            sender: self.sender.clone(),
            recipient: self.recipient.clone(),
            body: self.body.clone(),
            payload: self.payload.clone(),
            message_kind: self.message_kind,
            group_id: copy_opt(&self.group_id),
        }
    }
}

/// The kind of a message that names none.
pub fn default_message_kind() -> (r: MessageKind)
    ensures
        r == MessageKind::Direct,
{
    MessageKind::Direct
}

/// An envelope as it travels through the simulated network.
pub struct SimEnvelope {
    pub message_id: String,
    pub sender_id: String,
    pub recipient_id: String,
    pub message_kind: MessageKind,
    pub group_id: Option<String>,
    /// For whom a storage peer keeps the envelope.
    pub store_for: Option<String>,
    pub storage_peer_id: Option<String>,
    pub payload_size: u64,
    /// The payload that travels, serialised.
    pub payload: String,
}

impl SimEnvelope {
    /// A second envelope with the same contents.
    pub fn copied(&self) -> (r: Self)
        ensures
            r == *self,
    {
        SimEnvelope {
            message_id: self.message_id.clone(),
            sender_id: self.sender_id.clone(),
            recipient_id: self.recipient_id.clone(),
            message_kind: self.message_kind,
            group_id: copy_opt(&self.group_id),
            store_for: copy_opt(&self.store_for),
            storage_peer_id: copy_opt(&self.storage_peer_id),
            payload_size: self.payload_size,
            payload: self.payload.clone(),
        }
    }
}

/// A message that is to be sent at a given step.
pub struct PlannedSend {
    pub step: usize,
    pub message: SimMessage,
}

/// An envelope that was sent at a given step.
pub struct HistoricalMessage {
    pub send_step: usize,
    pub envelope: SimEnvelope,
}

impl HistoricalMessage {
    /// A second record with the same contents.
    pub fn copied(&self) -> (r: Self)
        ensures
            r == *self,
    {
        HistoricalMessage { send_step: self.send_step, envelope: self.envelope.copied() }
    }
}

} // verus!
