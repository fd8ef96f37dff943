//! Attachments: sealing, uploading, fetching back.
use tenet::storage::rows::AttachmentRow;
use tenet::storage::rows::BlobManifestRow;
use tenet::web_client::attachments::accept_upload;
use tenet::web_client::attachments::attachment_row;
use tenet::web_client::attachments::blob_manifest;
use tenet::web_client::attachments::check_size;
use tenet::web_client::attachments::chunk_upload;
use tenet::web_client::attachments::chunk_url;
use tenet::web_client::attachments::derive_chunk_nonce;
use tenet::web_client::attachments::encrypt_chunk;
use tenet::web_client::attachments::hydrated_row;
use tenet::web_client::attachments::new_blob_key;
use tenet::web_client::attachments::plan_download;
use tenet::web_client::attachments::seal_blob;
use tenet::web_client::attachments::upload_succeeded;
use tenet::web_client::attachments::AcceptedAttachment;
use tenet::web_client::attachments::BlobAssembly;
use tenet::web_client::attachments::BlobError;
use tenet::web_client::attachments::DownloadPlan;
use tenet::web_client::attachments::SealedChunk;
use tenet::web_client::attachments::Transport;
use tenet::web_client::config::CHUNK_SIZE;
use tenet::web_client::config::INLINE_THRESHOLD;
use tenet::web_client::config::MAX_ATTACHMENT_SIZE;

use base64::Engine;
use sha2::Digest;

const TYPE: &str = "image/png";

fn text_of(data: &[u8]) -> String {
    base64::engine::general_purpose::URL_SAFE_NO_PAD.encode(data)
}

fn data_of(size: usize) -> Vec<u8> {
    (0..size).map(|i| (i % 251) as u8).collect()
}

fn accept(data: &Vec<u8>, relay: Option<&str>) -> AcceptedAttachment {
    match accept_upload(
        &Some(data.clone()),
        &Some(TYPE.to_string()),
        &relay.map(|r| r.to_string()),
    ) {
        Ok(a) => a,
        Err(e) => panic!("{}", e.message),
    }
}

fn sealed(data: &Vec<u8>, key: &Vec<u8>) -> Vec<SealedChunk> {
    seal_blob(data, key)
}

fn manifest(data: &Vec<u8>, key: &Vec<u8>, chunks: &[SealedChunk]) -> BlobManifestRow {
    let accepted = accept(data, Some("http://relay"));
    let hashes = chunks.iter().map(|c| c.name.clone()).collect();
    blob_manifest(&accepted, &"http://relay".to_string(), key, &hashes, 5)
}

fn fault(r: Result<Vec<u8>, BlobError>) -> String {
    match r {
        Ok(_) => panic!("a fault"),
        Err(e) => e.message(),
    }
}

fn start(m: &BlobManifestRow) -> BlobAssembly {
    match BlobAssembly::start(m) {
        Ok(a) => a,
        Err(e) => panic!("{}", e.message()),
    }
}

#[test]
fn blobs_come_back_whole() {
    for size in [1, CHUNK_SIZE, CHUNK_SIZE + 1, 2 * CHUNK_SIZE + 17] {
        let data = data_of(size);
        let key = new_blob_key();
        assert_eq!(key.len(), 32);
        let chunks = sealed(&data, &key);
        let m = manifest(&data, &key, &chunks);
        let mut assembly = start(&m);
        for c in &chunks {
            assert_eq!(assembly.wanted(), Some(&c.name));
            assert!(assembly.take_chunk(&c.data).is_ok());
        }
        assert!(assembly.wanted().is_none());
        match assembly.finish(&m.content_hash, TYPE) {
            Ok(back) => assert_eq!(back, data),
            Err(e) => panic!("{}", e.message()),
        }
    }
}

#[test]
fn chunks_are_sealed() {
    let key = vec![7u8; 32];
    let data = data_of(100);
    let chunks = sealed(&data, &key);
    assert_eq!(chunks.len(), 1);
    assert_eq!(chunks[0].data.len(), 116);
    assert_ne!(&chunks[0].data[..100], &data[..]);
    assert_eq!(chunks[0].name, hex::encode(sha2::Sha256::digest(&chunks[0].data)));
    let again = encrypt_chunk(&key, 0, &data).expect("a chunk");
    assert_eq!(again.data, chunks[0].data);
    let other = encrypt_chunk(&key, 1, &data).expect("a chunk");
    assert_ne!(other.data, chunks[0].data);
}

#[test]
fn nonces_are_digests() {
    let key = vec![7u8; 32];
    let mut hasher = sha2::Sha256::new();
    hasher.update(&key);
    hasher.update(3u64.to_le_bytes());
    let digest = hasher.finalize();
    let nonce = derive_chunk_nonce(&key, 3);
    assert_eq!(nonce.len(), 12);
    assert_eq!(nonce[..], digest[..12]);
}

#[test]
fn keys_are_checked() {
    let data = data_of(10);
    let key = vec![7u8; 32];
    let chunks = sealed(&data, &key);
    let mut m = manifest(&data, &key, &chunks);
    m.blob_key = "***".to_string();
    assert!(matches!(BlobAssembly::start(&m), Err(BlobError::KeyEncoding(_))));
    m.blob_key = text_of(&[1, 2, 3]);
    assert!(matches!(BlobAssembly::start(&m), Err(BlobError::KeyLength)));
}

#[test]
fn damaged_chunks_are_found_out() {
    let data = data_of(10);
    let key = vec![7u8; 32];
    let chunks = sealed(&data, &key);
    let m = manifest(&data, &key, &chunks);
    let mut broken = chunks[0].data.clone();
    broken[0] ^= 1;
    assert!(matches!(start(&m).take_chunk(&broken), Err(BlobError::ChunkHash)));
    let mut wrong_key = manifest(&data, &vec![8u8; 32], &chunks);
    assert!(matches!(start(&wrong_key).take_chunk(&chunks[0].data), Err(BlobError::Decryption)));
    wrong_key.blob_key = m.blob_key.clone();
    assert!(start(&wrong_key).take_chunk(&chunks[0].data).is_ok());
}

#[test]
fn wrong_contents_are_found_out() {
    let data = data_of(10);
    let key = vec![7u8; 32];
    let chunks = sealed(&data, &key);
    let mut m = manifest(&data, &key, &chunks);
    let mut a = start(&m);
    assert!(a.take_chunk(&chunks[0].data).is_ok());
    let hash = m.content_hash.clone();
    assert_ne!(fault(a.finish("other", TYPE)), "");
    m.total_size = 11;
    let mut a = start(&m);
    assert!(a.take_chunk(&chunks[0].data).is_ok());
    assert!(matches!(a.finish(&hash, TYPE), Err(BlobError::Size)));
}

#[test]
fn uploads_are_addressed() {
    let chunk = SealedChunk { data: vec![1, 2, 3], name: "abc".to_string() };
    let up = chunk_upload("http://relay/", &chunk, &Some("me".to_string()));
    assert_eq!(up.chunk_hash, "abc");
    assert_eq!(up.data_b64, text_of(&[1, 2, 3]));
    assert_eq!(up.sender_id.as_deref(), Some("me"));
    assert!(up.url.starts_with("http://relay/"));
    assert!(chunk_url("http://relay", "abc").ends_with("/abc"));
    assert!(upload_succeeded(201));
    assert!(upload_succeeded(409));
    assert!(!upload_succeeded(500));
}

#[test]
fn small_files_travel_inline() {
    let small = data_of(10);
    let a = accept(&small, Some("http://relay"));
    assert!(matches!(a.transport, Transport::Inline));
    assert_eq!(a.size_bytes, 10);
    let row = attachment_row(&a, small, 5);
    assert_eq!((row.size_bytes, row.created_at), (10, 5));
    let large = data_of(INLINE_THRESHOLD as usize + 1);
    assert!(matches!(accept(&large, Some("http://relay")).transport, Transport::RelayBlob { relay_url } if relay_url == "http://relay"));
}

#[test]
fn uploads_are_checked() {
    let none = match accept_upload(&None, &None, &None) {
        Ok(_) => panic!("no file"),
        Err(e) => e,
    };
    assert_eq!(none.status, 400);
    assert!(check_size(MAX_ATTACHMENT_SIZE).is_ok());
    assert!(matches!(check_size(MAX_ATTACHMENT_SIZE + 1), Err(e) if e.status == 413));
}

#[test]
fn downloads_are_planned() {
    let row = AttachmentRow {
        content_hash: "h".to_string(),
        content_type: TYPE.to_string(),
        size_bytes: 3,
        data: vec![1, 2, 3],
        created_at: 1,
    };
    assert!(matches!(plan_download(&None, false), Err(e) if e.status == 404));
    let empty = AttachmentRow {
        content_hash: "h".to_string(),
        content_type: TYPE.to_string(),
        size_bytes: 3,
        data: Vec::new(),
        created_at: 1,
    };
    let full = hydrated_row(&empty, vec![1, 2, 3]);
    assert_eq!(full.data, vec![1, 2, 3]);
    assert_eq!(full.content_hash, "h");
    assert!(matches!(plan_download(&Some(row), true), Ok(DownloadPlan::Serve)));
    assert!(matches!(plan_download(&Some(empty), true), Ok(DownloadPlan::Fetch)));
}
