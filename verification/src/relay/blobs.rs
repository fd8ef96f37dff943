//! The blob store: encrypted chunks under the hash of their bytes.
use vstd::prelude::*;
use vstd::string::*;
use vstd::utf8::encode_utf8;

use crate::codec::base64_bytes;
use crate::codec::base64_decode;
use crate::codec::hex_encode;
use crate::codec::hex_of;
use crate::codec::sha256;
use crate::codec::sha256_of;
use crate::relay::config::RelayConfig;
use crate::relay::state::BlobEntry;
use crate::relay::state::Peer;
use crate::relay::state::RelayStateInner;
use crate::relay::state::RelayView;
use crate::text::opt_text;
use crate::text::same;

verus! {

/// What becomes of an upload.
#[derive(Clone, Copy, Debug, PartialEq, Eq, Structural)]
pub enum UploadOutcome {
    /// The declared hash is not 64 hexadecimal digits.
    InvalidHash,
    /// The data is not base64.
    InvalidBase64,
    /// The data does not have the declared hash.
    HashMismatch,
    /// The chunk exceeds the maximum size.
    TooLarge,
    /// The chunk is there already.
    Exists,
    /// The sender's bytes for the day are used up.
    QuotaExceeded,
    Created,
}

/// Whether `c` is a hexadecimal digit of either case.
pub open spec fn hex_char(c: char) -> bool {
    ('0' <= c && c <= '9') || ('a' <= c && c <= 'f') || ('A' <= c && c <= 'F')
}

/// Whether `s` is made of 64 bytes, all of them hexadecimal digits.
pub open spec fn chunk_name(s: Seq<char>) -> bool {
    encode_utf8(s).len() == 64 && forall|i: int| 0 <= i < s.len() ==> hex_char(#[trigger] s[i])
}

fn is_hex_char(c: char) -> (r: bool)
    ensures
        r == hex_char(c),
{
    ('0' <= c && c <= '9') || ('a' <= c && c <= 'f') || ('A' <= c && c <= 'F')
}

/// Whether `s` can be the name of a chunk.
pub fn is_chunk_name(s: &str) -> (r: bool)
    ensures
        r == chunk_name(s@),
{
    if s.as_bytes().len() != 64 {
        return false;
    }
    let n: usize = s.unicode_len();
    let mut i: usize = 0;
    while i < n
        invariant
            n == s@.len(),
            i <= n,
            encode_utf8(s@).len() == 64,
            forall|j: int| 0 <= j < i ==> hex_char(#[trigger] s@[j]),
        decreases n - i,
    {
        if !is_hex_char(s.get_char(i)) {
            return false;
        }
        i = i + 1;
    }
    true
}

/// The bytes that `sender` has uploaded on `today`.
pub open spec fn used_today(v: RelayView, sender: Peer, today: u64) -> u64 {
    if v.uploads.contains_key(sender) && v.uploads[sender].0 == today {
        v.uploads[sender].1
    } else {
        0
    }
}

/// What becomes of an authentic chunk of a permitted size, and of the relay that gets it.
pub open spec fn chunk_outcome(
    quota: u64,
    v: RelayView,
    name: Seq<char>,
    data: Seq<u8>,
    sender: Option<Peer>,
    today: u64,
) -> (RelayView, UploadOutcome) {
    if v.blobs.contains_key(name) {
        (v, UploadOutcome::Exists)
    } else {
        match sender {
            None => (
                RelayView { blobs: v.blobs.insert(name, (data, None)), ..v },
                UploadOutcome::Created,
            ),
            Some(s) => {
                let used = used_today(v, s, today);
                if used + data.len() > quota {
                    (
                        RelayView { uploads: v.uploads.insert(s, (today, used)), ..v },
                        UploadOutcome::QuotaExceeded,
                    )
                } else {
                    (
                        RelayView {
                            uploads: v.uploads.insert(s, (today, (used + data.len()) as u64)),
                            blobs: v.blobs.insert(name, (data, Some(s))),
                            ..v
                        },
                        UploadOutcome::Created,
                    )
                }
            },
        }
    }
}

/// What is wrong with an upload of `encoded` bytes of base64 that decoded to `data`, if anything
/// is. The limit is on the encoded chunk.
pub open spec fn upload_fault(
    config: &RelayConfig,
    name: Seq<char>,
    encoded: nat,
    data: Option<Seq<u8>>,
) -> Option<UploadOutcome> {
    if !chunk_name(name) {
        Some(UploadOutcome::InvalidHash)
    } else {
        match data {
            None => Some(UploadOutcome::InvalidBase64),
            Some(d) => if hex_of(sha256_of(d)) != name {
                Some(UploadOutcome::HashMismatch)
            } else if encoded > config.blob_max_chunk_bytes {
                Some(UploadOutcome::TooLarge)
            } else {
                None
            },
        }
    }
}

/// What becomes of an upload of `encoded` bytes of base64 that decoded to `data`, and of the relay
/// that gets it.
pub open spec fn upload_outcome(
    config: &RelayConfig,
    v: RelayView,
    name: Seq<char>,
    encoded: nat,
    data: Option<Seq<u8>>,
    sender: Option<Peer>,
    today: u64,
) -> (RelayView, UploadOutcome) {
    match upload_fault(config, name, encoded, data) {
        Some(o) => (v, o),
        None => chunk_outcome(config.blob_daily_quota_bytes, v, name, data->0, sender, today),
    }
}

/// Checks an upload before the relay's memory is asked for: its name, its encoding, its hash and
/// its size. Gives the bytes of the chunk.
pub fn check_upload(config: &RelayConfig, chunk_hash: &str, data_b64: &str) -> (r: Result<
    Vec<u8>,
    UploadOutcome,
>)
    ensures
        match upload_fault(
            config,
            chunk_hash@,
            encode_utf8(data_b64@).len(),
            base64_bytes(data_b64@),
        ) {
            Some(o) => r == Err::<Vec<u8>, UploadOutcome>(o),
            None => r matches Ok(data) && base64_bytes(data_b64@) == Some(data@),
        },
{
    if !is_chunk_name(chunk_hash) {
        return Err(UploadOutcome::InvalidHash);
    }
    let data: Vec<u8> = match base64_decode(data_b64) {
        Ok(d) => d,
        Err(_) => {
            return Err(UploadOutcome::InvalidBase64);
        },
    };
    let actual = hex_encode(sha256(data.as_slice()).as_slice());
    if !same(actual.as_str(), chunk_hash) {
        return Err(UploadOutcome::HashMismatch);
    }
    if data_b64.as_bytes().len() > config.blob_max_chunk_bytes {
        return Err(UploadOutcome::TooLarge);
    }
    Ok(data)
}

/// Takes in a chunk whose name and size have been checked.
pub fn store_chunk(
    config: &RelayConfig,
    inner: &mut RelayStateInner,
    chunk_hash: &str,
    data: Vec<u8>,
    sender_id: Option<String>,
    today: u64,
) -> (r: UploadOutcome)
    requires
        old(inner).tables_wf(),
    ensures
        final(inner).tables_wf(),
        ({
            let (v, o) = chunk_outcome(
                config.blob_daily_quota_bytes,
                old(inner)@,
                chunk_hash@,
                data@,
                opt_text(sender_id),
                today,
            );
            final(inner)@ == v && r == o
        }),
{
    let key = chunk_hash.to_owned();
    if inner.blobs.contains_key(&key) {
        return UploadOutcome::Exists;
    }
    match &sender_id {
        Some(s) => {
            let used: u64 = match inner.blob_daily_upload.get(s) {
                Some(entry) => if entry.0 == today {
                    entry.1
                } else {
                    0
                },
                None => 0,
            };
            let size: u64 = data.len() as u64;
            let total: u64 = match used.checked_add(size) {
                Some(t) if t <= config.blob_daily_quota_bytes => t,
                _ => {
                    inner.blob_daily_upload.insert(s.clone(), (today, used));
                    return UploadOutcome::QuotaExceeded;
                },
            };
            inner.blob_daily_upload.insert(s.clone(), (today, total));
        },
        None => {},
    }
    inner.blobs.insert(key, BlobEntry { data, uploader_id: sender_id });
    UploadOutcome::Created
}

/// Takes in an upload: checks the name, decodes the data, holds it against the name and the
/// limits, and stores it. `today` is the number of the UTC day.
pub fn upload_blob(
    config: &RelayConfig,
    inner: &mut RelayStateInner,
    chunk_hash: &str,
    data_b64: &str,
    sender_id: Option<String>,
    today: u64,
) -> (r: UploadOutcome)
    requires
        old(inner).tables_wf(),
    ensures
        final(inner).tables_wf(),
        ({
            let (v, o) = upload_outcome(
                config,
                old(inner)@,
                chunk_hash@,
                encode_utf8(data_b64@).len(),
                base64_bytes(data_b64@),
                opt_text(sender_id),
                today,
            );
            final(inner)@ == v && r == o
        }),
{
    match check_upload(config, chunk_hash, data_b64) {
        Ok(data) => store_chunk(config, inner, chunk_hash, data, sender_id, today),
        Err(outcome) => outcome,
    }
}

/// The HTTP status of an upload.
pub fn upload_status(outcome: UploadOutcome) -> (r: u16)
    ensures
        r == (match outcome {
            UploadOutcome::InvalidHash | UploadOutcome::InvalidBase64
            | UploadOutcome::HashMismatch => 400u16,
            UploadOutcome::TooLarge => 413u16,
            UploadOutcome::Exists => 409u16,
            UploadOutcome::QuotaExceeded => 429u16,
            UploadOutcome::Created => 201u16,
        }),
{
    match outcome {
        UploadOutcome::InvalidHash => 400,
        UploadOutcome::InvalidBase64 => 400,
        UploadOutcome::HashMismatch => 400,
        UploadOutcome::TooLarge => 413,
        UploadOutcome::Exists => 409,
        UploadOutcome::QuotaExceeded => 429,
        UploadOutcome::Created => 201,
    }
}

/// The number of the UTC day on which the wall clock shows `epoch` seconds.
pub fn utc_day(epoch: Option<u64>) -> (r: u64)
    ensures
        r == (match epoch {
            Some(e) => e / 86_400,
            None => 0,
        }),
{
    match epoch {
        Some(e) => e / 86_400,
        None => 0,
    }
}

/// The bytes of a chunk.
pub fn download_blob(inner: &RelayStateInner, chunk_hash: &str) -> (r: Option<Vec<u8>>)
    requires
        inner.tables_wf(),
    ensures
        match r {
            Some(data) => inner@.blobs.contains_key(chunk_hash@) && data@
                == inner@.blobs[chunk_hash@].0,
            None => !inner@.blobs.contains_key(chunk_hash@),
        },
{
    match inner.blobs.get(&chunk_hash.to_owned()) {
        Some(entry) => {
            let data: Vec<u8> = entry.data.clone();
            assert(data@ =~= entry.data@);
            Some(data)
        },
        None => None,
    }
}

/// Deletes a chunk, and says whether it was there.
pub fn delete_blob(inner: &mut RelayStateInner, chunk_hash: &str) -> (r: bool)
    requires
        old(inner).tables_wf(),
    ensures
        final(inner).tables_wf(),
        r == old(inner)@.blobs.contains_key(chunk_hash@),
        final(inner)@ == (RelayView { blobs: old(inner)@.blobs.remove(chunk_hash@), ..old(inner)@ }),
{
    inner.blobs.remove(&chunk_hash.to_owned()).is_some()
}

// ---------------------------------------------------------------------------
// Laws
// ---------------------------------------------------------------------------

/// Whether every chunk goes under the hash of its bytes.
pub open spec fn authentic(v: RelayView) -> bool {
    forall|name: Seq<char>| #[trigger]
        v.blobs.contains_key(name) ==> name == hex_of(sha256_of(v.blobs[name].0))
}

/// Whether no sender has gone over its daily quota.
pub open spec fn within_quota(v: RelayView, quota: u64) -> bool {
    forall|s: Peer| #[trigger] v.uploads.contains_key(s) ==> v.uploads[s].1 <= quota
}

/// An upload never puts a chunk under a name that is not its hash, and never takes a sender over
/// its daily quota.
pub proof fn law_upload_keeps_store_authentic_and_within_quota(
    config: &RelayConfig,
    v: RelayView,
    name: Seq<char>,
    encoded: nat,
    data: Option<Seq<u8>>,
    sender: Option<Peer>,
    today: u64,
)
    requires
        authentic(v),
        within_quota(v, config.blob_daily_quota_bytes),
    ensures
        authentic(upload_outcome(config, v, name, encoded, data, sender, today).0),
        within_quota(
            upload_outcome(config, v, name, encoded, data, sender, today).0,
            config.blob_daily_quota_bytes,
        ),
{
}

/// What was uploaded is what is read: after a successful upload the chunk is found under its
/// name, and every other chunk is what it was.
pub proof fn law_upload_then_download(
    config: &RelayConfig,
    v: RelayView,
    name: Seq<char>,
    encoded: nat,
    data: Option<Seq<u8>>,
    sender: Option<Peer>,
    today: u64,
)
    ensures
        ({
            let (w, o) = upload_outcome(config, v, name, encoded, data, sender, today);
            &&& o == UploadOutcome::Created ==> data is Some && w.blobs.contains_key(name)
                && w.blobs[name].0 == data->0 && hex_of(sha256_of(data->0)) == name
            &&& forall|other: Seq<char>|
                other != name ==> (#[trigger] w.blobs.contains_key(other)
                    == v.blobs.contains_key(other)) && (v.blobs.contains_key(other)
                    ==> w.blobs[other] == v.blobs[other])
        }),
{
}

/// A chunk is stored once: uploading it again reports that it exists and changes nothing.
pub proof fn law_upload_twice(
    config: &RelayConfig,
    v: RelayView,
    name: Seq<char>,
    encoded: nat,
    data: Option<Seq<u8>>,
    sender: Option<Peer>,
    today: u64,
    again: Option<Peer>,
    day: u64,
)
    requires
        upload_outcome(config, v, name, encoded, data, sender, today).1 == UploadOutcome::Created,
    ensures
        ({
            let w = upload_outcome(config, v, name, encoded, data, sender, today).0;
            upload_outcome(config, w, name, encoded, data, again, day) == (w, UploadOutcome::Exists)
        }),
{
}

/// A refused upload stores nothing, and one whose encoded chunk exceeds the limit is refused.
pub proof fn law_refused_upload_stores_nothing(
    config: &RelayConfig,
    v: RelayView,
    name: Seq<char>,
    encoded: nat,
    data: Option<Seq<u8>>,
    sender: Option<Peer>,
    today: u64,
)
    requires
        upload_outcome(config, v, name, encoded, data, sender, today).1 != UploadOutcome::Created
            || encoded > config.blob_max_chunk_bytes,
    ensures
        upload_outcome(config, v, name, encoded, data, sender, today).1 != UploadOutcome::Created,
        upload_outcome(config, v, name, encoded, data, sender, today).0.blobs == v.blobs,
{
}

} // verus!
