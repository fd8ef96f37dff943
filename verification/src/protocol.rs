//! The kinds of message that peers exchange.
use vstd::prelude::*;

verus! {

/// What a message is for.
#[derive(Clone, Copy, Debug, PartialEq, Eq, Structural)]
pub enum MessageKind {
    Public,
    Meta,
    Direct,
    FriendGroup,
    StoreForPeer,
}

/// The name under which messages of a kind are kept.
pub open spec fn kind_name(kind: MessageKind) -> Seq<char> {
    match kind {
        MessageKind::Public => "public"@,
        MessageKind::Meta => "meta"@,
        MessageKind::Direct => "direct"@,
        MessageKind::FriendGroup => "friend_group"@,
        MessageKind::StoreForPeer => "store_for_peer"@,
    }
}

/// The name under which messages of a kind are kept.
pub fn message_kind_to_str(kind: MessageKind) -> (r: &'static str)
    ensures
        r@ == kind_name(kind),
{
    match kind {
        MessageKind::Public => "public",
        MessageKind::Meta => "meta",
        MessageKind::Direct => "direct",
        MessageKind::FriendGroup => "friend_group",
        MessageKind::StoreForPeer => "store_for_peer",
    }
}

} // verus!
