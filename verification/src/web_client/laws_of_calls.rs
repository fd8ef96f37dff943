//! What a call on the web client answers, in terms of what it is handed.
use vstd::prelude::*;

use crate::codec::base64_of;
use crate::codec::hex_of;
use crate::codec::json_compacted;
use crate::codec::opened;
use crate::codec::sealed;
use crate::codec::sha256_of;
use crate::codec::SEAL_LIMIT;
use crate::storage::rows::PeerRow;
use crate::storage::rows::StoredKeypair;
use crate::text::blank;
use crate::text::opt_text;
use crate::web_client::api::api_error;
use crate::web_client::api::ApiError;
use crate::web_client::attachments::derive_chunk_nonce;
use crate::web_client::attachments::encrypt_chunk;
use crate::web_client::attachments::new_blob_key;
use crate::web_client::attachments::BlobAssembly;
use crate::web_client::attachments::BlobError;
use crate::web_client::attachments::SealedChunk;
use crate::web_client::groups::create_group;
use crate::web_client::groups::CreateGroupRequest;
use crate::web_client::groups::GroupPlan;
use crate::web_client::messages::is_silent;
use crate::web_client::messages::SendAttachmentRef;
use crate::web_client::meta::address;
use crate::web_client::meta::friend_accept;
use crate::web_client::meta::friend_request;
use crate::web_client::meta::group_invite;
use crate::web_client::meta::MetaToSend;
use crate::web_client::meta::PeerMeta;
use crate::web_client::peers::backfills;
use crate::web_client::peers::create_placeholder_peer;
use crate::web_client::profiles::profile_fields;
use crate::web_client::status::peer_uri;
use crate::web_client::status::qr_answer;

verus! {

/// A chunk is taken in where it has the name that is wanted next and opens under the key with the
/// nonce of its number; what it holds then goes behind what is there. Any other changes nothing.
pub proof fn law_wanted_chunk_is_taken_in(
    a: &mut BlobAssembly,
    boxed: Vec<u8>,
    r: Result<(), BlobError>,
    name: Option<&String>,
)
    requires
        call_ensures(BlobAssembly::wanted, (&*old(a), ), name),
        call_ensures(BlobAssembly::take_chunk, (a, &boxed), r),
        old(a)@.taken < old(a)@.names.len(),
    ensures
        ({
            let x = old(a)@;
            let y = final(a)@;
            let nonce = sha256_of(x.key + vstd::bytes::spec_u64_to_le_bytes(x.taken as u64)).take(
                12,
            );
            let plain = opened(x.key, nonce, boxed@);
            &&& name is Some && name->0@ == x.names[x.taken]
            &&& r is Ok <==> hex_of(sha256_of(boxed@)) == name->0@ && boxed@.len() <= SEAL_LIMIT
                + 16 && plain is Some
            &&& r is Ok ==> y.plain == x.plain + plain->0 && y.taken == x.taken + 1
            &&& r is Err ==> y == x
            &&& y.key == x.key && y.names == x.names && y.total_size == x.total_size
            &&& r is Err && hex_of(sha256_of(boxed@)) != name->0@ ==> r->Err_0
                == BlobError::ChunkHash
            &&& r is Err && hex_of(sha256_of(boxed@)) == name->0@ ==> r->Err_0
                == BlobError::Decryption
        }),
{
}

/// A file that is complete is handed over where it has its size, its hash and a type.
pub proof fn law_complete_file_is_handed_over(
    a: BlobAssembly,
    hash: &str,
    kind: &str,
    r: Result<Vec<u8>, BlobError>,
)
    requires
        call_ensures(BlobAssembly::finish, (a, hash, kind), r),
    ensures
        r is Ok <==> a@.plain.len() == a@.total_size && base64_of(sha256_of(a@.plain)) == hash@
            && !blank(kind@),
        r is Ok ==> r->Ok_0@ == a@.plain,
        a@.plain.len() != a@.total_size ==> r == Err::<Vec<u8>, BlobError>(BlobError::Size),
        r is Err && a@.plain.len() == a@.total_size && base64_of(sha256_of(a@.plain)) != hash@
            ==> r->Err_0 == BlobError::ContentHash,
{
}

/// Every failure reads differently.
pub proof fn law_failures_read_as_they_are(e: BlobError, r: String)
    requires
        call_ensures(BlobError::message, (&e,), r),
    ensures
        match e {
            BlobError::KeyEncoding(s) => r@ == "invalid blob key encoding: "@ + s@,
            BlobError::KeyLength => r@ == "invalid blob key length"@,
            BlobError::ChunkHash => r@ == "chunk hash mismatch"@,
            BlobError::Decryption => r@ == "chunk decryption failed: aead::Error"@,
            BlobError::Size => r@ == "blob size mismatch"@,
            BlobError::ContentHash => r@ == "attachment content hash mismatch"@,
            BlobError::ContentType => r@ == "missing content type"@,
        },
{
}

/// A chunk is sealed under the key and a nonce of its own, is named by its hash and opens again.
pub proof fn law_chunk_is_sealed_under_its_number(
    key: Vec<u8>,
    number: u64,
    chunk: &[u8],
    nonce: Vec<u8>,
    r: Option<SealedChunk>,
    fresh: Vec<u8>,
)
    requires
        call_ensures(derive_chunk_nonce, (&key, number), nonce),
        call_ensures(encrypt_chunk, (&key, number, chunk), r),
        call_ensures(new_blob_key, (), fresh),
    ensures
        nonce@.len() == 12,
        nonce@ == sha256_of(key@ + vstd::bytes::spec_u64_to_le_bytes(number)).take(12),
        r is Some <==> chunk@.len() <= SEAL_LIMIT,
        r is Some ==> r->0.data@ == sealed(key@, nonce@, chunk@),
        r is Some ==> opened(key@, nonce@, r->0.data@) == Some(chunk@),
        r is Some ==> r->0.name@ == hex_of(sha256_of(r->0.data@)),
        fresh@.len() == 32,
{
}

/// A request for friendship and the answer to it carry the keys of the one who writes, each for its
/// purpose; an invitation names the group.
pub proof fn law_meta_messages_carry_what_they_are_for(
    own: StoredKeypair,
    note: Option<String>,
    asks: PeerMeta,
    accepts: PeerMeta,
    group: String,
    invites: PeerMeta,
)
    requires
        call_ensures(friend_request, (&own, &note), asks),
        call_ensures(friend_accept, (&own,), accepts),
        call_ensures(group_invite, (&own.id, &group, &note), invites),
    ensures
        asks matches PeerMeta::FriendRequest {
            peer_id,
            signing_public_key,
            encryption_public_key,
            message,
        } && peer_id@ == own.id@ && signing_public_key@ == own.signing_public_key_hex@
            && encryption_public_key@ == own.public_key_hex@ && opt_text(message) == opt_text(note),
        accepts matches PeerMeta::FriendAccept {
            peer_id,
            signing_public_key,
            encryption_public_key,
        } && peer_id@ == own.id@ && signing_public_key@ == own.signing_public_key_hex@
            && encryption_public_key@ == own.public_key_hex@,
        invites matches PeerMeta::GroupInvite { peer_id, group_id, group_name, message } && peer_id@
            == own.id@ && group_id@ == group@ && group_name is Some && group_name->0@ == group@
            && opt_text(message) == opt_text(note),
{
}

/// A meta message goes from the one to the other, now, and lives for an hour.
pub proof fn law_meta_messages_are_addressed(
    from: String,
    to: String,
    now: u64,
    m: PeerMeta,
    r: MetaToSend,
)
    requires
        call_ensures(address, (&from, &to, now, m), r),
    ensures
        r.sender_id@ == from@,
        r.recipient_id@ == to@,
        r.timestamp == now,
        r.ttl_seconds == 3600,
        r.message == m,
{
}

/// A peer that is not known yet is entered with nothing but its id, and not as a friend.
pub proof fn law_unknown_peer_is_entered(id: &str, now: u64, p: PeerRow, derived: &str, r: bool)
    requires
        call_ensures(create_placeholder_peer, (id, now), p),
        call_ensures(backfills, (id, derived), r),
    ensures
        p.peer_id@ == id@,
        p.signing_public_key@.len() == 0,
        p.encryption_public_key is None && p.display_name is None,
        p.added_at == now,
        !p.is_friend && !p.is_blocked && !p.is_muted && !p.online,
        r <==> id@ == derived@,
{
}

/// A group is founded by the one who asks for it, under a key of 32 bytes, with an invitation for
/// everybody else who is named; it needs a name.
pub proof fn law_group_needs_a_name(
    req: CreateGroupRequest,
    own: String,
    now: u64,
    r: Result<GroupPlan, ApiError>,
)
    requires
        call_ensures(create_group, (&req, &own, now), r),
    ensures
        r is Ok <==> !blank(req.group_id@),
        r is Err ==> r->Err_0.status == 400,
        r is Ok ==> r->Ok_0.group.group_id@ == req.group_id@ && r->Ok_0.group.creator_id@ == own@
            && r->Ok_0.group.created_at == now && r->Ok_0.group.key_version == 1
            && r->Ok_0.group.group_key@.len() == 32,
        r is Ok ==> r->Ok_0.founder.peer_id@ == own@ && r->Ok_0.founder.group_id@ == req.group_id@,
{
}

/// Small answers: a refusal has its status and words, an address names the peer and its key, a QR
/// code that cannot be drawn is an error of the client, a profile's fields are kept where they are
/// JSON, and a message says nothing that has neither words nor attachments.
pub proof fn law_small_answers(
    status: u16,
    words: &str,
    e: ApiError,
    id: &str,
    key: &str,
    uri: String,
    svg: String,
    drawn: Result<String, ApiError>,
    undrawn: Result<String, ApiError>,
    fields: &str,
    kept: String,
    body: String,
    files: Vec<SendAttachmentRef>,
    silent: bool,
)
    requires
        call_ensures(api_error, (status, words), e),
        call_ensures(peer_uri, (id, key), uri),
        call_ensures(qr_answer, (Ok::<String, String>(svg),), drawn),
        call_ensures(qr_answer, (Err::<String, String>(svg),), undrawn),
        call_ensures(profile_fields, (fields,), kept),
        call_ensures(is_silent, (&body, &files), silent),
    ensures
        e.status == status && e.message@ == words@,
        uri@ == "tenet://peer/"@ + id@ + "?key="@ + key@,
        drawn == Ok::<String, ApiError>(svg),
        undrawn is Err && undrawn->Err_0.status == 500 && undrawn->Err_0.message@ == svg@,
        json_compacted(fields@) is Some ==> kept@ == json_compacted(fields@)->0,
        json_compacted(fields@) is None ==> kept@ == "{}"@,
        silent <==> blank(body@) && files@.len() == 0,
{
    assert(e@.status == e.status && e@.message == e.message@);
    let u = undrawn->Err_0;
    assert(u@.status == u.status && u@.message == u.message@);
}

} // verus!
