//! Profiles, and to whom they are shown.
use vstd::prelude::*;
use vstd::string::*;

use crate::codec::base64_encode;
use crate::codec::base64_of;
use crate::codec::json_compact;
use crate::codec::json_compacted;
use crate::storage::rows::AttachmentRow;
use crate::storage::rows::PeerRow;
use crate::storage::rows::ProfileRow;
use crate::text::copy_opt;
use crate::text::opt_text;

verus! {

/// A change of the local peer's profile. Fields are JSON.
#[derive(Debug)]
pub struct UpdateProfileRequest {
    pub display_name: Option<String>,
    pub bio: Option<String>,
    pub avatar_hash: Option<String>,
    pub public_fields: String,
    pub friends_fields: String,
}

/// Fields of a profile as they are kept and shown: an empty object where they cannot be read.
pub open spec fn fields_of(raw: Seq<char>) -> Seq<char> {
    match json_compacted(raw) {
        Some(s) => s,
        None => "{}"@,
    }
}

/// Fields of a profile as they are kept and shown.
pub fn profile_fields(raw: &str) -> (r: String)
    ensures
        r@ == fields_of(raw@),
{
    match json_compact(raw) {
        Some(s) => s,
        None => "{}".to_owned(),
    }
}

/// A profile as it is shown.
#[derive(Debug)]
pub struct ProfileReply {
    pub user_id: String,
    pub display_name: Option<String>,
    pub bio: Option<String>,
    pub avatar_hash: Option<String>,
    pub public_fields: String,
    /// What only friends see.
    pub friends_fields: Option<String>,
    pub updated_at: u64,
}

/// Whether a profile is shown as it is kept, with what only friends see or without.
pub open spec fn shows(reply: ProfileReply, row: ProfileRow, to_friend: bool) -> bool {
    &&& reply.user_id == row.user_id
    &&& reply.display_name == row.display_name
    &&& reply.bio == row.bio
    &&& reply.avatar_hash == row.avatar_hash
    &&& reply.public_fields@ == fields_of(row.public_fields@)
    &&& opt_text(reply.friends_fields) == (if to_friend {
        Some(fields_of(row.friends_fields@))
    } else {
        None
    })
    &&& reply.updated_at == row.updated_at
}

/// Whether an empty profile is shown.
pub open spec fn shows_nothing(reply: ProfileReply, user_id: Seq<char>, own: bool) -> bool {
    &&& reply.user_id@ == user_id
    &&& reply.display_name is None
    &&& reply.bio is None
    &&& reply.avatar_hash is None
    &&& reply.public_fields@ == "{}"@
    &&& opt_text(reply.friends_fields) == (if own {
        Some("{}"@)
    } else {
        None
    })
    &&& reply.updated_at == 0
}

fn show(row: &ProfileRow, to_friend: bool) -> (r: ProfileReply)
    ensures
        shows(r, *row, to_friend),
{
    ProfileReply {
        user_id: row.user_id.clone(),
        display_name: copy_opt(&row.display_name),
        bio: copy_opt(&row.bio),
        avatar_hash: copy_opt(&row.avatar_hash),
        public_fields: profile_fields(row.public_fields.as_str()),
        friends_fields: if to_friend {
            Some(profile_fields(row.friends_fields.as_str()))
        } else {
            None
        },
        updated_at: row.updated_at,
    }
}

/// The local peer's profile as it is shown to its user: all of it, and an empty one where there
/// is none.
pub fn get_own_profile(own_id: &str, profile: &Option<ProfileRow>) -> (r: ProfileReply)
    ensures
        match profile {
            Some(row) => shows(r, *row, true),
            None => shows_nothing(r, own_id@, true),
        },
{
    match profile {
        Some(row) => show(row, true),
        None => ProfileReply {
            user_id: own_id.to_owned(),
            display_name: None,
            bio: None,
            avatar_hash: None,
            public_fields: "{}".to_owned(),
            friends_fields: Some("{}".to_owned()),
            updated_at: 0,
        },
    }
}

/// The profile of another peer: what friends show is there only where the peer is a friend.
pub fn get_peer_profile(peer_id: &str, peer: &Option<PeerRow>, profile: &Option<ProfileRow>) -> (r:
    ProfileReply)
    ensures
        match profile {
            Some(row) => shows(r, *row, peer is Some && peer->0.is_friend),
            None => shows_nothing(r, peer_id@, false),
        },
{
    let is_friend = match peer {
        Some(p) => p.is_friend,
        None => false,
    };
    match profile {
        Some(row) => show(row, is_friend),
        None => ProfileReply {
            user_id: peer_id.to_owned(),
            display_name: None,
            bio: None,
            avatar_hash: None,
            public_fields: "{}".to_owned(),
            friends_fields: None,
            updated_at: 0,
        },
    }
}

// ---------------------------------------------------------------------------
// Updating
// ---------------------------------------------------------------------------

/// A friend to whom the profile is sent, with its key.
#[derive(Debug)]
pub struct FriendKey {
    pub peer_id: String,
    pub encryption_key: String,
}

/// Those peers to whom the profile is sent: friends whose key for encryption is known.
pub open spec fn reachable_friend(p: PeerRow) -> bool {
    p.is_friend && p.encryption_public_key is Some
}

/// The friends to whom a profile is sent, in the order of the list.
pub fn friends_to_tell(peers: &Vec<PeerRow>) -> (r: Vec<FriendKey>)
    ensures
        r@ == peers@.filter(|p: PeerRow| reachable_friend(p)).map_values(
            |p: PeerRow| FriendKey {
                peer_id: p.peer_id,
                encryption_key: p.encryption_public_key->0,
            },
        ),
{
    let ghost f = |p: PeerRow| reachable_friend(p);
    let ghost key = |p: PeerRow| FriendKey {
        peer_id: p.peer_id,
        encryption_key: p.encryption_public_key->0,
    };
    let mut out: Vec<FriendKey> = Vec::new();
    let mut i: usize = 0;
    proof {
        reveal(Seq::filter);
        assert(peers@.take(0) =~= Seq::empty());
        assert(out@ =~= peers@.take(0).filter(f).map_values(key));
    }
    while i < peers.len()
        invariant
            i <= peers@.len(),
            f == (|p: PeerRow| reachable_friend(p)),
            key == (|p: PeerRow| FriendKey {
                peer_id: p.peer_id,
                encryption_key: p.encryption_public_key->0,
            }),
            out@ == peers@.take(i as int).filter(f).map_values(key),
        decreases peers@.len() - i,
    {
        proof {
            reveal(Seq::filter);
            assert(peers@.take(i + 1).drop_last() =~= peers@.take(i as int));
            assert(peers@.take(i + 1).last() == peers@[i as int]);
        }
        let p = &peers[i];
        if p.is_friend {
            match &p.encryption_public_key {
                Some(k) => {
                    out.push(
                        FriendKey { peer_id: p.peer_id.clone(), encryption_key: k.clone() },
                    );
                    proof {
                        let t = peers@.take(i as int).filter(f);
                        assert(t.push(*p).map_values(key) =~= t.map_values(key).push(key(*p)));
                    }
                },
                None => {},
            }
        }
        i = i + 1;
    }
    proof {
        assert(peers@.take(i as int) =~= peers@);
    }
    out
}

/// A profile as it is sent to others. Fields are JSON.
#[derive(Debug)]
pub struct ProfileBroadcast {
    pub user_id: String,
    pub display_name: Option<String>,
    pub bio: Option<String>,
    pub avatar_hash: Option<String>,
    /// The avatar itself, in base64, and its type.
    pub avatar_data: Option<String>,
    pub avatar_content_type: Option<String>,
    pub public_fields: String,
    /// What only friends see.
    pub friends_fields: Option<String>,
    pub updated_at: u64,
}

/// What is kept and sent when the local peer's profile changes.
#[derive(Debug)]
pub struct ProfileUpdate {
    pub row: ProfileRow,
    /// For everybody, in the clear.
    pub public: ProfileBroadcast,
    /// For friends, each under its key.
    pub friends: ProfileBroadcast,
    pub to: Vec<FriendKey>,
    pub reply: ProfileReply,
}

/// Whether a profile is sent as it was changed, with what only friends see or without.
pub open spec fn broadcasts(
    b: ProfileBroadcast,
    req: UpdateProfileRequest,
    own_id: String,
    avatar: Option<AttachmentRow>,
    to_friends: bool,
    now: u64,
) -> bool {
    &&& b.user_id == own_id
    &&& b.display_name == req.display_name
    &&& b.bio == req.bio
    &&& b.avatar_hash == req.avatar_hash
    &&& opt_text(b.avatar_data) == (match avatar {
        Some(a) => Some(base64_of(a.data@)),
        None => None,
    })
    &&& opt_text(b.avatar_content_type) == (match avatar {
        Some(a) => Some(a.content_type@),
        None => None,
    })
    &&& b.public_fields@ == fields_of(req.public_fields@)
    &&& opt_text(b.friends_fields) == (if to_friends {
        Some(fields_of(req.friends_fields@))
    } else {
        None
    })
    &&& b.updated_at == now
}

/// The most bytes that an avatar may have.
pub open spec fn fits_in_text(data: Seq<u8>) -> bool {
    (data.len() / 3 + 1) * 4 <= isize::MAX
}

fn broadcast(
    req: &UpdateProfileRequest,
    own_id: &String,
    avatar: &Option<AttachmentRow>,
    to_friends: bool,
    now: u64,
) -> (r: ProfileBroadcast)
    requires
        avatar matches Some(a) ==> fits_in_text(a.data@),
    ensures
        broadcasts(r, *req, *own_id, *avatar, to_friends, now),
{
    let (avatar_data, avatar_content_type) = match avatar {
        Some(a) => (Some(base64_encode(a.data.as_slice())), Some(a.content_type.clone())),
        None => (None, None),
    };
    ProfileBroadcast {
        user_id: own_id.clone(),
        display_name: copy_opt(&req.display_name),
        bio: copy_opt(&req.bio),
        avatar_hash: copy_opt(&req.avatar_hash),
        avatar_data,
        avatar_content_type,
        public_fields: profile_fields(req.public_fields.as_str()),
        friends_fields: if to_friends {
            Some(profile_fields(req.friends_fields.as_str()))
        } else {
            None
        },
        updated_at: now,
    }
}

/// Changes the local peer's profile: what is kept, what is sent to everybody, what is sent to
/// friends and to which of them, and what is answered. `avatar` is the attachment that the avatar
/// names, where there is one.
pub fn update_own_profile(
    req: &UpdateProfileRequest,
    own_id: &String,
    avatar: &Option<AttachmentRow>,
    peers: &Vec<PeerRow>,
    now: u64,
) -> (r: ProfileUpdate)
    requires
        avatar matches Some(a) ==> fits_in_text(a.data@),
    ensures
        r.row.user_id == *own_id,
        r.row.display_name == req.display_name,
        r.row.bio == req.bio,
        r.row.avatar_hash == req.avatar_hash,
        r.row.public_fields@ == fields_of(req.public_fields@),
        r.row.friends_fields@ == fields_of(req.friends_fields@),
        r.row.updated_at == now,
        broadcasts(r.public, *req, *own_id, *avatar, false, now),
        broadcasts(r.friends, *req, *own_id, *avatar, true, now),
        r.to@ == peers@.filter(|p: PeerRow| reachable_friend(p)).map_values(
            |p: PeerRow| FriendKey {
                peer_id: p.peer_id,
                encryption_key: p.encryption_public_key->0,
            },
        ),
        r.reply.user_id == *own_id,
        r.reply.display_name == req.display_name,
        r.reply.bio == req.bio,
        r.reply.avatar_hash == req.avatar_hash,
        r.reply.public_fields@ == fields_of(req.public_fields@),
        opt_text(r.reply.friends_fields) == Some(fields_of(req.friends_fields@)),
        r.reply.updated_at == now,
{
    let public_fields = profile_fields(req.public_fields.as_str());
    let friends_fields = profile_fields(req.friends_fields.as_str());
    ProfileUpdate {
        row: ProfileRow {
            user_id: own_id.clone(),
            display_name: copy_opt(&req.display_name),
            bio: copy_opt(&req.bio),
            avatar_hash: copy_opt(&req.avatar_hash),
            public_fields: public_fields.clone(),
            friends_fields: friends_fields.clone(),
            updated_at: now,
        },
        public: broadcast(req, own_id, avatar, false, now),
        friends: broadcast(req, own_id, avatar, true, now),
        to: friends_to_tell(peers),
        reply: ProfileReply {
            user_id: own_id.clone(),
            display_name: copy_opt(&req.display_name),
            bio: copy_opt(&req.bio),
            avatar_hash: copy_opt(&req.avatar_hash),
            public_fields,
            friends_fields: Some(friends_fields),
            updated_at: now,
        },
    }
}

/// What only friends see is in nothing that goes to everybody, nor in what is shown of a peer
/// that is no friend.
pub proof fn law_friends_fields_stay_with_friends(
    b: ProfileBroadcast,
    req: UpdateProfileRequest,
    own_id: String,
    avatar: Option<AttachmentRow>,
    now: u64,
    reply: ProfileReply,
    row: ProfileRow,
)
    requires
        broadcasts(b, req, own_id, avatar, false, now),
        shows(reply, row, false),
    ensures
        b.friends_fields is None,
        reply.friends_fields is None,
{
}

/// Whether two profiles that are sent to others read the same.
pub open spec fn reads_same(a: ProfileBroadcast, b: ProfileBroadcast) -> bool {
    &&& a.user_id == b.user_id
    &&& a.display_name == b.display_name
    &&& a.bio == b.bio
    &&& a.avatar_hash == b.avatar_hash
    &&& opt_text(a.avatar_data) == opt_text(b.avatar_data)
    &&& opt_text(a.avatar_content_type) == opt_text(b.avatar_content_type)
    &&& a.public_fields@ == b.public_fields@
    &&& opt_text(a.friends_fields) == opt_text(b.friends_fields)
    &&& a.updated_at == b.updated_at
}

/// What goes to everybody does not depend on what only friends see: two changes that differ in
/// nothing else send the same.
pub proof fn law_public_profile_hides_friends_fields(
    a: ProfileBroadcast,
    b: ProfileBroadcast,
    req_a: UpdateProfileRequest,
    req_b: UpdateProfileRequest,
    own_id: String,
    avatar: Option<AttachmentRow>,
    now: u64,
)
    requires
        req_b == (UpdateProfileRequest { friends_fields: req_b.friends_fields, ..req_a }),
        broadcasts(a, req_a, own_id, avatar, false, now),
        broadcasts(b, req_b, own_id, avatar, false, now),
    ensures
        reads_same(a, b),
        a.friends_fields is None,
{
}

/// The profile is sent to friends only, and to each of them whose key is known.
pub proof fn law_profile_goes_to_friends(peers: Seq<PeerRow>, p: PeerRow)
    ensures
        peers.filter(|q: PeerRow| reachable_friend(q)).contains(p) <==> peers.contains(p)
            && p.is_friend && p.encryption_public_key is Some,
{
    let f = |q: PeerRow| reachable_friend(q);
    let kept = peers.filter(f);
    if kept.contains(p) {
        peers.lemma_filter_contains_rev(f, p);
        let i = choose|i: int| 0 <= i < kept.len() && kept[i] == p;
        peers.lemma_filter_pred(f, i);
    }
    if peers.contains(p) && reachable_friend(p) {
        let i = choose|i: int| 0 <= i < peers.len() && peers[i] == p;
        peers.lemma_filter_contains(f, i);
    }
}

} // verus!
