//! Attachments: how they are sealed in chunks, put together again, and kept.
use vstd::prelude::*;
use vstd::slice::slice_subrange;
use vstd::string::*;

use crate::codec::base64_bytes;
use crate::codec::base64_decode;
use crate::codec::base64_decoded;
use crate::codec::base64_encode;
use crate::codec::base64_of;
use crate::codec::fresh_bytes;
use crate::codec::hex_encode;
use crate::codec::hex_of;
use crate::codec::open;
use crate::codec::opened;
use crate::codec::seal;
use crate::codec::sealed;
use crate::codec::sha256;
use crate::codec::sha256_of;
use crate::codec::SEAL_LIMIT;
use crate::simulation::config::pieces;
use crate::storage::rows::AttachmentRow;
use crate::storage::rows::BlobManifestRow;
use crate::text::blank;
use crate::text::copy_all;
use crate::text::copy_opt;
use crate::text::is_blank;
use crate::text::same;
use crate::text::strip_end;
use crate::text::stripped_end;
use crate::text::texts;
use crate::web_client::api::api_error;
use crate::web_client::api::refusal;
use crate::web_client::api::refused_as;
use crate::web_client::api::ApiError;
use crate::web_client::api::BAD_REQUEST;
use crate::web_client::api::NOT_FOUND;
use crate::web_client::api::PAYLOAD_TOO_LARGE;
use crate::web_client::api::SERVICE_UNAVAILABLE;
use crate::web_client::config::CHUNK_SIZE;
use crate::web_client::config::INLINE_THRESHOLD;
use crate::web_client::config::MAX_ATTACHMENT_SIZE;

verus! {

// ---------------------------------------------------------------------------
// Chunks
// ---------------------------------------------------------------------------

/// The nonce of a chunk: the first 12 bytes of the digest of the key and the chunk's number in
/// eight bytes, the lowest first.
pub open spec fn chunk_nonce(key: Seq<u8>, index: u64) -> Seq<u8> {
    sha256_of(key + vstd::bytes::spec_u64_to_le_bytes(index)).take(12)
}

/// The name of a sealed chunk: its digest in hexadecimal.
pub open spec fn chunk_name(boxed: Seq<u8>) -> Seq<char> {
    hex_of(sha256_of(boxed))
}

/// The hash of a file: its digest in base64.
pub open spec fn content_hash_of(data: Seq<u8>) -> Seq<char> {
    base64_of(sha256_of(data))
}

/// The nonce of a chunk.
pub fn derive_chunk_nonce(blob_key: &Vec<u8>, chunk_index: u64) -> (r: Vec<u8>)
    requires
        blob_key@.len() == 32,
    ensures
        r@ == chunk_nonce(blob_key@, chunk_index),
        r@.len() == 12,
{
    let mut input: Vec<u8> = Vec::new();
    input.extend_from_slice(blob_key.as_slice());
    let number = vstd::bytes::u64_to_le_bytes(chunk_index);
    input.extend_from_slice(number.as_slice());
    assert(input@ =~= blob_key@ + vstd::bytes::spec_u64_to_le_bytes(chunk_index));
    let digest = sha256(input.as_slice());
    let mut nonce: Vec<u8> = Vec::new();
    let head = slice_subrange(digest.as_slice(), 0, 12);
    nonce.extend_from_slice(head);
    assert(nonce@ =~= digest@.take(12));
    nonce
}

/// A chunk that is ready to be uploaded.
pub struct SealedChunk {
    pub data: Vec<u8>,
    /// The name under which it is uploaded.
    pub name: String,
}

/// Seals a chunk. There is nothing where it is too long to be sealed.
pub fn encrypt_chunk(blob_key: &Vec<u8>, chunk_index: u64, chunk: &[u8]) -> (r: Option<SealedChunk>)
    requires
        blob_key@.len() == 32,
        chunk@.len() + 16 <= isize::MAX,
    ensures
        match r {
            Some(c) => {
                let nonce = chunk_nonce(blob_key@, chunk_index);
                &&& chunk@.len() <= SEAL_LIMIT
                &&& c.data@ == sealed(blob_key@, nonce, chunk@)
                &&& opened(blob_key@, nonce, c.data@) == Some(chunk@)
                &&& c.data@.len() == chunk@.len() + 16
                &&& c.name@ == chunk_name(c.data@)
            },
            None => chunk@.len() > SEAL_LIMIT,
        },
{
    if chunk.len() as u64 > SEAL_LIMIT {
        return None;
    }
    let nonce = derive_chunk_nonce(blob_key, chunk_index);
    match seal(blob_key.as_slice(), nonce.as_slice(), chunk) {
        Some(data) => {
            let name = hex_encode(sha256(data.as_slice()).as_slice());
            Some(SealedChunk { data, name })
        },
        None => None,
    }
}

/// Chunk `i` of a file.
pub open spec fn piece(data: Seq<u8>, i: int) -> Seq<u8> {
    let start = i * CHUNK_SIZE;
    let end = (i + 1) * CHUNK_SIZE;
    data.subrange(
        start,
        if end <= data.len() {
            end
        } else {
            data.len() as int
        },
    )
}

/// How many chunks a file has.
pub open spec fn piece_count(data: Seq<u8>) -> int {
    pieces(data.len() as int, CHUNK_SIZE as int)
}

/// Whether `chunks` are the sealed chunks of a file: each opens to its part of it, and bears the
/// name of what it holds.
pub open spec fn seals(key: Seq<u8>, data: Seq<u8>, chunks: Seq<SealedChunk>) -> bool {
    &&& chunks.len() == piece_count(data)
    &&& forall|i: int|
        #![trigger chunks[i]]
        0 <= i < chunks.len() ==> {
            &&& chunks[i].data@ == sealed(key, chunk_nonce(key, i as u64), piece(data, i))
            &&& opened(key, chunk_nonce(key, i as u64), chunks[i].data@) == Some(piece(data, i))
            &&& chunks[i].data@.len() == piece(data, i).len() + 16
            &&& chunks[i].name@ == chunk_name(chunks[i].data@)
        }
}

proof fn lemma_piece_bounds(len: int, i: int)
    requires
        0 <= i,
        0 <= len,
    ensures
        i < pieces(len, CHUNK_SIZE as int) <==> i * CHUNK_SIZE < len,
{
    let c = CHUNK_SIZE as int;
    let n = pieces(len, c);
    assert(n == (len + c - 1) / c);
    vstd::arithmetic::div_mod::lemma_fundamental_div_mod(len + c - 1, c);
    assert(c * n == n * 262_144);
    assert(i * CHUNK_SIZE == i * 262_144);
}

/// Seals a file in chunks.
pub fn seal_blob(data: &Vec<u8>, key: &Vec<u8>) -> (r: Vec<SealedChunk>)
    requires
        key@.len() == 32,
        data@.len() <= MAX_ATTACHMENT_SIZE,
    ensures
        seals(key@, data@, r@),
{
    let mut chunks: Vec<SealedChunk> = Vec::new();
    let total: usize = data.len();
    let mut start: usize = 0;
    while start < total
        invariant
            total == data@.len(),
            data@.len() <= MAX_ATTACHMENT_SIZE,
            key@.len() == 32,
            start == chunks@.len() * CHUNK_SIZE,
            start < total + CHUNK_SIZE,
            forall|i: int|
                #![trigger chunks@[i]]
                0 <= i < chunks@.len() ==> {
                    &&& chunks@[i].data@ == sealed(
                        key@,
                        chunk_nonce(key@, i as u64),
                        piece(data@, i),
                    )
                    &&& opened(key@, chunk_nonce(key@, i as u64), chunks@[i].data@) == Some(
                        piece(data@, i),
                    )
                    &&& chunks@[i].data@.len() == piece(data@, i).len() + 16
                    &&& chunks@[i].name@ == chunk_name(chunks@[i].data@)
                },
        decreases total + CHUNK_SIZE - start,
    {
        let end: usize = if total - start <= CHUNK_SIZE {
            total
        } else {
            start + CHUNK_SIZE
        };
        let index: u64 = chunks.len() as u64;
        let ghost i = chunks@.len() as int;
        let chunk = slice_subrange(data.as_slice(), start, end);
        proof {
            lemma_piece_bounds(total as int, i);
            assert((i + 1) * CHUNK_SIZE == start + CHUNK_SIZE);
            assert(chunk@ =~= piece(data@, i));
        }
        if let Some(c) = encrypt_chunk(key, index, chunk) {
            chunks.push(c);
        }
        start = start + CHUNK_SIZE;
    }
    proof {
        let n = chunks@.len() as int;
        lemma_piece_bounds(total as int, n);
        if n > 0 {
            lemma_piece_bounds(total as int, n - 1);
            assert((n - 1) * CHUNK_SIZE == start - CHUNK_SIZE);
        }
        assert(piece_count(data@) >= 0);
    }
    chunks
}

// ---------------------------------------------------------------------------
// Putting together again
// ---------------------------------------------------------------------------

/// Why an attachment cannot be put together.
#[derive(Debug)]
pub enum BlobError {
    /// The key is not base64; what is wrong with it.
    KeyEncoding(String),
    KeyLength,
    ChunkHash,
    Decryption,
    Size,
    ContentHash,
    ContentType,
}

/// What a failure reads.
pub open spec fn blob_error_text(e: BlobError) -> Seq<char> {
    match e {
        BlobError::KeyEncoding(s) => "invalid blob key encoding: "@ + s@,
        BlobError::KeyLength => "invalid blob key length"@,
        BlobError::ChunkHash => "chunk hash mismatch"@,
        BlobError::Decryption => "chunk decryption failed: aead::Error"@,
        BlobError::Size => "blob size mismatch"@,
        BlobError::ContentHash => "attachment content hash mismatch"@,
        BlobError::ContentType => "missing content type"@,
    }
}

impl BlobError {
    /// What the failure reads.
    pub fn message(&self) -> (r: String)
        ensures
            r@ == blob_error_text(*self),
    {
        match self {
            BlobError::KeyEncoding(s) => crate::text::join(
                "invalid blob key encoding: ",
                s.as_str(),
            ),
            BlobError::KeyLength => "invalid blob key length".to_owned(),
            BlobError::ChunkHash => "chunk hash mismatch".to_owned(),
            BlobError::Decryption => "chunk decryption failed: aead::Error".to_owned(),
            BlobError::Size => "blob size mismatch".to_owned(),
            BlobError::ContentHash => "attachment content hash mismatch".to_owned(),
            BlobError::ContentType => "missing content type".to_owned(),
        }
    }
}

/// An attachment that is being put together, chunk by chunk.
pub struct BlobAssembly {
    key: Vec<u8>,
    chunk_hashes: Vec<String>,
    total_size: u64,
    plaintext: Vec<u8>,
    taken: usize,
}

/// An attachment that is being put together.
pub struct AssemblyView {
    pub key: Seq<u8>,
    pub names: Seq<Seq<char>>,
    pub total_size: u64,
    pub plain: Seq<u8>,
    pub taken: int,
}

impl View for BlobAssembly {
    type V = AssemblyView;

    closed spec fn view(&self) -> AssemblyView {
        AssemblyView {
            key: self.key@,
            names: texts(self.chunk_hashes@),
            total_size: self.total_size,
            plain: self.plaintext@,
            taken: self.taken as int,
        }
    }
}

/// What becomes of an attachment when the next chunk comes in.
pub open spec fn chunk_taken(a: AssemblyView, boxed: Seq<u8>) -> Result<AssemblyView, BlobError> {
    if chunk_name(boxed) != a.names[a.taken] {
        Err(BlobError::ChunkHash)
    } else if boxed.len() > SEAL_LIMIT + 16 {
        Err(BlobError::Decryption)
    } else {
        match opened(a.key, chunk_nonce(a.key, a.taken as u64), boxed) {
            None => Err(BlobError::Decryption),
            Some(p) => Ok(AssemblyView { plain: a.plain + p, taken: a.taken + 1, ..a }),
        }
    }
}

/// What is wrong with an attachment once all chunks are there, if anything is.
pub open spec fn assembly_fault(
    a: AssemblyView,
    content_hash: Seq<char>,
    content_type: Seq<char>,
) -> Option<BlobError> {
    if a.plain.len() != a.total_size {
        Some(BlobError::Size)
    } else if content_hash_of(a.plain) != content_hash {
        Some(BlobError::ContentHash)
    } else if blank(content_type) {
        Some(BlobError::ContentType)
    } else {
        None
    }
}

impl BlobAssembly {
    pub closed spec fn wf(&self) -> bool {
        &&& self.key@.len() == 32
        &&& self.taken <= self.chunk_hashes@.len()
    }

    /// Starts to put an attachment together.
    pub fn start(manifest: &BlobManifestRow) -> (r: Result<Self, BlobError>)
        ensures
            match base64_decoded(manifest.blob_key@) {
                Err(e) => r matches Err(BlobError::KeyEncoding(s)) && s@ == e,
                Ok(key) => if key.len() != 32 {
                    r matches Err(BlobError::KeyLength)
                } else {
                    &&& r is Ok
                    &&& r->Ok_0.wf()
                    &&& r->Ok_0@ == (AssemblyView {
                        key,
                        names: texts(manifest.chunk_hashes@),
                        total_size: manifest.total_size,
                        plain: Seq::empty(),
                        taken: 0,
                    })
                },
            },
    {
        let key: Vec<u8> = match base64_decode(manifest.blob_key.as_str()) {
            Ok(k) => k,
            Err(e) => {
                return Err(BlobError::KeyEncoding(e));
            },
        };
        if key.len() != 32 {
            return Err(BlobError::KeyLength);
        }
        Ok(
            BlobAssembly {
                key,
                chunk_hashes: copy_all(&manifest.chunk_hashes),
                total_size: manifest.total_size,
                plaintext: Vec::new(),
                taken: 0,
            },
        )
    }

    /// The name of the chunk that is needed next, if one is.
    pub fn wanted(&self) -> (r: Option<&String>)
        requires
            self.wf(),
        ensures
            match r {
                Some(name) => self@.taken < self@.names.len() && name@ == self@.names[self@.taken],
                None => self@.taken == self@.names.len(),
            },
    {
        if self.taken < self.chunk_hashes.len() {
            Some(&self.chunk_hashes[self.taken])
        } else {
            None
        }
    }

    /// Takes in the next chunk.
    pub fn take_chunk(&mut self, encrypted: &Vec<u8>) -> (r: Result<(), BlobError>)
        requires
            old(self).wf(),
            old(self)@.taken < old(self)@.names.len(),
        ensures
            final(self).wf(),
            match chunk_taken(old(self)@, encrypted@) {
                Ok(a) => r is Ok && final(self)@ == a,
                Err(e) => r == Err::<(), BlobError>(e) && final(self)@ == old(self)@,
            },
    {
        let ghost before = self@;
        let count: usize = self.chunk_hashes.len();
        assert(self.taken < count);
        let name = hex_encode(sha256(encrypted.as_slice()).as_slice());
        assert(before.names[before.taken] == self.chunk_hashes@[self.taken as int]@);
        if !same(name.as_str(), self.chunk_hashes[self.taken].as_str()) {
            return Err(BlobError::ChunkHash);
        }
        if encrypted.len() as u64 > SEAL_LIMIT + 16 {
            return Err(BlobError::Decryption);
        }
        let nonce = derive_chunk_nonce(&self.key, self.taken as u64);
        match open(self.key.as_slice(), nonce.as_slice(), encrypted.as_slice()) {
            None => Err(BlobError::Decryption),
            Some(plain) => {
                self.plaintext.extend_from_slice(plain.as_slice());
                self.taken = self.taken + 1;
                assert(self@.plain =~= before.plain + plain@);
                Ok(())
            },
        }
    }

    /// Checks the whole attachment and hands it over.
    pub fn finish(self, content_hash: &str, content_type: &str) -> (r: Result<Vec<u8>, BlobError>)
        requires
            self.wf(),
            self@.taken == self@.names.len(),
        ensures
            match assembly_fault(self@, content_hash@, content_type@) {
                Some(e) => r == Err::<Vec<u8>, BlobError>(e),
                None => r matches Ok(data) && data@ == self@.plain,
            },
    {
        if self.plaintext.len() as u64 != self.total_size {
            return Err(BlobError::Size);
        }
        let computed = base64_encode(sha256(self.plaintext.as_slice()).as_slice());
        if !same(computed.as_str(), content_hash) {
            return Err(BlobError::ContentHash);
        }
        if is_blank(content_type) {
            return Err(BlobError::ContentType);
        }
        Ok(self.plaintext)
    }
}

/// What comes of taking in chunks one after the other.
pub open spec fn chunks_taken(a: AssemblyView, chunks: Seq<SealedChunk>, n: nat) -> Result<
    AssemblyView,
    BlobError,
>
    decreases n,
{
    if n == 0 {
        Ok(a)
    } else {
        match chunks_taken(a, chunks, (n - 1) as nat) {
            Ok(b) => chunk_taken(b, chunks[n - 1].data@),
            Err(e) => Err(e),
        }
    }
}

proof fn lemma_pieces_join(data: Seq<u8>, n: int)
    requires
        0 <= n,
        n < piece_count(data),
    ensures
        data.take(n * CHUNK_SIZE) + piece(data, n) == data.take(
            if (n + 1) * CHUNK_SIZE <= data.len() {
                (n + 1) * CHUNK_SIZE
            } else {
                data.len() as int
            },
        ),
{
    lemma_piece_bounds(data.len() as int, n);
    assert((n + 1) * CHUNK_SIZE == n * CHUNK_SIZE + CHUNK_SIZE);
    let end = if (n + 1) * CHUNK_SIZE <= data.len() {
        (n + 1) * CHUNK_SIZE
    } else {
        data.len() as int
    };
    assert(data.take(n * CHUNK_SIZE) + piece(data, n) =~= data.take(end));
}

/// An attachment that was sealed in chunks can be put together again: taking in its chunks under
/// the same key, in order, gives back the file, and nothing is wrong with it under its own size
/// and hash.
pub proof fn law_blob_round_trip(
    key: Seq<u8>,
    data: Seq<u8>,
    chunks: Seq<SealedChunk>,
    a: AssemblyView,
    content_type: Seq<char>,
)
    requires
        seals(key, data, chunks),
        a.key == key,
        a.taken == 0,
        a.plain == Seq::<u8>::empty(),
        a.names == chunks.map_values(|c: SealedChunk| c.name@),
    ensures
        chunks_taken(a, chunks, chunks.len()) == Ok::<AssemblyView, BlobError>(
            AssemblyView { plain: data, taken: chunks.len() as int, ..a },
        ),
        a.total_size == data.len() && !blank(content_type) ==> assembly_fault(
            AssemblyView { plain: data, taken: chunks.len() as int, ..a },
            content_hash_of(data),
            content_type,
        ) is None,
{
    lemma_partly(key, data, chunks, a, chunks.len());
    let n = chunks.len() as int;
    if n == 0 {
        lemma_piece_bounds(data.len() as int, 0);
        assert(data.take(0) =~= data);
    } else {
        lemma_piece_bounds(data.len() as int, n);
        assert(data.take(data.len() as int) =~= data);
    }
}

proof fn lemma_partly(
    key: Seq<u8>,
    data: Seq<u8>,
    chunks: Seq<SealedChunk>,
    a: AssemblyView,
    n: nat,
)
    requires
        seals(key, data, chunks),
        a.key == key,
        a.taken == 0,
        a.plain == Seq::<u8>::empty(),
        a.names == chunks.map_values(|c: SealedChunk| c.name@),
        n <= chunks.len(),
    ensures
        chunks_taken(a, chunks, n) == Ok::<AssemblyView, BlobError>(
            AssemblyView {
                plain: data.take(
                    if n * CHUNK_SIZE <= data.len() {
                        n * CHUNK_SIZE
                    } else {
                        data.len() as int
                    },
                ),
                taken: n as int,
                ..a
            },
        ),
    decreases n,
{
    if n == 0 {
        assert(data.take(0) =~= Seq::empty());
    } else {
        let m = (n - 1) as nat;
        lemma_partly(key, data, chunks, a, m);
        lemma_piece_bounds(data.len() as int, m as int);
        lemma_pieces_join(data, m as int);
        assert(a.names[m as int] == chunks[m as int].name@);
        assert(m * CHUNK_SIZE <= data.len());
    }
}

// ---------------------------------------------------------------------------
// Uploading
// ---------------------------------------------------------------------------

/// What is sent to a relay to upload a chunk.
pub struct ChunkUpload {
    pub url: String,
    pub chunk_hash: String,
    pub data_b64: String,
    pub sender_id: Option<String>,
}

/// Where a relay takes chunks.
pub open spec fn blobs_url(relay_url: Seq<char>) -> Seq<char> {
    stripped_end(relay_url, '/') + "/blobs"@
}

/// Where a relay has a chunk.
pub open spec fn blob_url(relay_url: Seq<char>, name: Seq<char>) -> Seq<char> {
    stripped_end(relay_url, '/') + "/blobs/"@ + name
}

/// The request that uploads a sealed chunk.
pub fn chunk_upload(relay_url: &str, chunk: &SealedChunk, sender_id: &Option<String>) -> (r:
    ChunkUpload)
    requires
        chunk.data@.len() <= CHUNK_SIZE + 16,
    ensures
        r.url@ == blobs_url(relay_url@),
        r.chunk_hash == chunk.name,
        r.data_b64@ == base64_of(chunk.data@),
        base64_bytes(r.data_b64@) == Some(chunk.data@),
        r.sender_id == *sender_id,
{
    let mut url = strip_end(relay_url, '/').to_owned();
    url.append("/blobs");
    ChunkUpload {
        url,
        chunk_hash: chunk.name.clone(),
        data_b64: base64_encode(chunk.data.as_slice()),
        sender_id: copy_opt(sender_id),
    }
}

/// Where a relay has a chunk.
pub fn chunk_url(relay_url: &str, chunk_hash: &str) -> (r: String)
    ensures
        r@ == blob_url(relay_url@, chunk_hash@),
{
    let mut url = strip_end(relay_url, '/').to_owned();
    url.append("/blobs/");
    url.append(chunk_hash);
    url
}

/// Whether a relay has the chunk after an upload: it was stored, or it was there already.
pub fn upload_succeeded(status: u16) -> (r: bool)
    ensures
        r == (status == 200 || status == 201 || status == 409),
{
    status == 200 || status == 201 || status == 409
}

/// Refuses a file that is too large.
pub fn check_size(size: u64) -> (r: Result<(), ApiError>)
    ensures
        r is Ok <==> size <= MAX_ATTACHMENT_SIZE,
        size > MAX_ATTACHMENT_SIZE ==> refused_as(
            r,
            refusal(
                PAYLOAD_TOO_LARGE,
                "attachment exceeds maximum size of 52428800 bytes"@,
            ),
        ),
{
    if size > MAX_ATTACHMENT_SIZE {
        Err(api_error(PAYLOAD_TOO_LARGE, "attachment exceeds maximum size of 52428800 bytes"))
    } else {
        Ok(())
    }
}

/// How an attachment travels.
#[derive(Debug)]
pub enum Transport {
    /// Inside the message.
    Inline,
    /// In sealed chunks, by way of a relay.
    RelayBlob { relay_url: String },
}

/// An attachment that is accepted.
#[derive(Debug)]
pub struct AcceptedAttachment {
    pub content_hash: String,
    pub content_type: String,
    pub size_bytes: u64,
    pub transport: Transport,
}

/// The type of content whose type is not given.
pub open spec fn type_or_default(content_type: Option<String>) -> Seq<char> {
    match content_type {
        Some(t) => t@,
        None => "application/octet-stream"@,
    }
}

/// Decides on an upload: an empty one is refused, a small one travels inside the message, and a
/// large one needs a relay.
pub fn accept_upload(
    file: &Option<Vec<u8>>,
    content_type: &Option<String>,
    relay_url: &Option<String>,
) -> (r: Result<AcceptedAttachment, ApiError>)
    ensures
        match file {
            Some(data) if data@.len() > 0 => {
                if data@.len() >= INLINE_THRESHOLD && relay_url is None {
                    refused_as(
                        r,
                        refusal(
                            SERVICE_UNAVAILABLE,
                            "no relay configured; cannot upload blob"@,
                        ),
                    )
                } else {
                    &&& r is Ok
                    &&& r->Ok_0.content_hash@ == content_hash_of(data@)
                    &&& r->Ok_0.content_type@ == type_or_default(*content_type)
                    &&& r->Ok_0.size_bytes == data@.len()
                    &&& if data@.len() < INLINE_THRESHOLD {
                        r->Ok_0.transport is Inline
                    } else {
                        r->Ok_0.transport matches Transport::RelayBlob { relay_url: u } && u
                            == relay_url->0
                    }
                }
            },
            _ => refused_as(r, refusal(BAD_REQUEST, "no file provided"@)),
        },
{
    let data = match file {
        Some(d) if d.len() > 0 => d,
        _ => {
            return Err(api_error(BAD_REQUEST, "no file provided"));
        },
    };
    let content_type = match content_type {
        Some(t) => t.clone(),
        None => "application/octet-stream".to_owned(),
    };
    let content_hash = base64_encode(sha256(data.as_slice()).as_slice());
    let size_bytes: u64 = data.len() as u64;
    let transport = if size_bytes < INLINE_THRESHOLD {
        Transport::Inline
    } else {
        match relay_url {
            Some(u) => Transport::RelayBlob { relay_url: u.clone() },
            None => {
                return Err(
                    api_error(SERVICE_UNAVAILABLE, "no relay configured; cannot upload blob"),
                );
            },
        }
    };
    Ok(AcceptedAttachment { content_hash, content_type, size_bytes, transport })
}

/// The row under which an attachment is kept; one that went to a relay is kept without its data.
pub fn attachment_row(accepted: &AcceptedAttachment, data: Vec<u8>, now: u64) -> (r: AttachmentRow)
    ensures
        r.content_hash == accepted.content_hash,
        r.content_type == accepted.content_type,
        r.size_bytes == accepted.size_bytes,
        r.data@ == (match accepted.transport {
            Transport::Inline => data@,
            Transport::RelayBlob { .. } => Seq::empty(),
        }),
        r.created_at == now,
{
    AttachmentRow {
        content_hash: accepted.content_hash.clone(),
        content_type: accepted.content_type.clone(),
        size_bytes: accepted.size_bytes,
        data: match accepted.transport {
            Transport::Inline => data,
            Transport::RelayBlob { .. } => Vec::new(),
        },
        created_at: now,
    }
}

/// A new key for the chunks of an attachment.
pub fn new_blob_key() -> (r: Vec<u8>)
    ensures
        r@.len() == 32,
{
    fresh_bytes(32)
}

/// How an attachment that went to a relay can be put together again.
pub fn blob_manifest(
    accepted: &AcceptedAttachment,
    relay_url: &String,
    key: &Vec<u8>,
    chunk_hashes: &Vec<String>,
    now: u64,
) -> (r: BlobManifestRow)
    requires
        key@.len() == 32,
    ensures
        r.content_hash == accepted.content_hash,
        r.blob_key@ == base64_of(key@),
        base64_bytes(r.blob_key@) == Some(key@),
        r.relay_url == *relay_url,
        r.chunk_hashes@ == chunk_hashes@,
        r.total_size == accepted.size_bytes,
        r.created_at == now,
{
    BlobManifestRow {
        content_hash: accepted.content_hash.clone(),
        blob_key: base64_encode(key.as_slice()),
        relay_url: relay_url.clone(),
        chunk_hashes: copy_all(chunk_hashes),
        total_size: accepted.size_bytes,
        created_at: now,
    }
}

// ---------------------------------------------------------------------------
// Downloading
// ---------------------------------------------------------------------------

/// How a download is answered.
#[derive(Clone, Copy, Debug, PartialEq, Eq, Structural)]
pub enum DownloadPlan {
    /// With the data that is kept.
    Serve,
    /// With what the relay has.
    Fetch,
}

/// Decides how a download is answered: with the data that is kept, where it is or where it can be
/// found nowhere else.
pub fn plan_download(kept: &Option<AttachmentRow>, has_manifest: bool) -> (r: Result<
    DownloadPlan,
    ApiError,
>)
    ensures
        match kept {
            None => refused_as(r, refusal(NOT_FOUND, "attachment not found"@)),
            Some(a) => r matches Ok(p) && p == (if a.data@.len() > 0 || !has_manifest {
                DownloadPlan::Serve
            } else {
                DownloadPlan::Fetch
            }),
        },
{
    match kept {
        None => Err(api_error(NOT_FOUND, "attachment not found")),
        Some(a) => if a.data.len() > 0 || !has_manifest {
            Ok(DownloadPlan::Serve)
        } else {
            Ok(DownloadPlan::Fetch)
        },
    }
}

/// The row that is kept once the data of an attachment has come from a relay.
pub fn hydrated_row(kept: &AttachmentRow, data: Vec<u8>) -> (r: AttachmentRow)
    ensures
        r.content_hash == kept.content_hash,
        r.content_type == kept.content_type,
        r.size_bytes == kept.size_bytes,
        r.data@ == data@,
        r.created_at == kept.created_at,
{
    AttachmentRow {
        content_hash: kept.content_hash.clone(),
        content_type: kept.content_type.clone(),
        size_bytes: kept.size_bytes,
        data,
        created_at: kept.created_at,
    }
}

} // verus!
