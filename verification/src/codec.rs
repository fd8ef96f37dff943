//! Digests, text encodings, sealing, JSON and QR codes, as the crates that provide them
//! document them. What is stated here is relied on, not proved.
use vstd::prelude::*;
use vstd::string::*;

use base64::Engine;
use chacha20poly1305::aead::Aead;
use chacha20poly1305::aead::KeyInit;
use rand::RngCore;
use sha2::Digest;

verus! {

/// The SHA-256 digest of a byte string.
pub uninterp spec fn sha256_of(data: Seq<u8>) -> Seq<u8>;

/// `sha2::Sha256::digest`: the SHA-256 digest of `data`, 32 bytes long.
#[verifier::external_body]
pub(crate) fn sha256(data: &[u8]) -> (r: Vec<u8>)
    ensures
        r@ == sha256_of(data@),
        r@.len() == 32,
{
    sha2::Sha256::digest(data).to_vec()
}

/// The lower-case hexadecimal digit `d`.
pub open spec fn hex_digit(d: int) -> char {
    if d < 10 {
        (48 + d) as char
    } else {
        (87 + d) as char
    }
}

/// `data` in lower-case hexadecimal, two digits a byte, high digit first.
pub open spec fn hex_of(data: Seq<u8>) -> Seq<char> {
    Seq::new(
        2 * data.len(),
        |i: int|
            if i % 2 == 0 {
                hex_digit(data[i / 2] as int / 16)
            } else {
                hex_digit(data[i / 2] as int % 16)
            },
    )
}

/// `hex::encode`: `data` in lower-case hexadecimal.
#[verifier::external_body]
pub(crate) fn hex_encode(data: &[u8]) -> (r: String)
    requires
        2 * data@.len() <= isize::MAX,
    ensures
        r@ == hex_of(data@),
{
    hex::encode(data)
}

/// The value of a hexadecimal digit, in either case.
pub open spec fn hex_value(c: char) -> Option<int> {
    if '0' <= c <= '9' {
        Some(c as int - 48)
    } else if 'a' <= c <= 'f' {
        Some(c as int - 87)
    } else if 'A' <= c <= 'F' {
        Some(c as int - 55)
    } else {
        None
    }
}

/// The bytes that a text in hexadecimal stands for, two digits a byte, high digit first; nothing
/// where it has an odd number of characters or one that is no digit.
pub open spec fn hex_bytes(text: Seq<char>) -> Option<Seq<u8>> {
    if text.len() % 2 == 0 && forall|i: int| 0 <= i < text.len() ==> hex_value(#[trigger] text[i]) is Some {
        Some(
            Seq::new(
                text.len() / 2,
                |i: int| (16 * hex_value(text[2 * i])->0 + hex_value(text[2 * i + 1])->0) as u8,
            ),
        )
    } else {
        None
    }
}

/// `hex::decode`: the bytes that `text` stands for, or nothing where it is not hexadecimal.
#[verifier::external_body]
pub(crate) fn hex_decode(text: &str) -> (r: Option<Vec<u8>>)
    ensures
        match r {
            Some(data) => hex_bytes(text@) == Some(data@),
            None => hex_bytes(text@) is None,
        },
{
    hex::decode(text).ok()
}

/// The bytes that a text in URL-safe base64 without padding stands for, or what is wrong with it.
pub uninterp spec fn base64_decoded(text: Seq<char>) -> Result<Seq<u8>, Seq<char>>;

/// The bytes that a text in URL-safe base64 without padding stands for, if it is one.
pub open spec fn base64_bytes(text: Seq<char>) -> Option<Seq<u8>> {
    match base64_decoded(text) {
        Ok(data) => Some(data),
        Err(_) => None,
    }
}

/// The URL-safe base64 text, without padding, of a byte string.
pub uninterp spec fn base64_of(data: Seq<u8>) -> Seq<char>;

/// `base64::engine::general_purpose::URL_SAFE_NO_PAD.encode`: the base64 text of `data`, which
/// decodes to `data` again.
#[verifier::external_body]
pub(crate) fn base64_encode(data: &[u8]) -> (r: String)
    requires
        (data@.len() / 3 + 1) * 4 <= isize::MAX,
    ensures
        r@ == base64_of(data@),
        base64_bytes(r@) == Some(data@),
{
    base64::engine::general_purpose::URL_SAFE_NO_PAD.encode(data)
}

/// `base64::engine::general_purpose::URL_SAFE_NO_PAD.decode`: the bytes that `text` stands for,
/// or the text of the error where it is not such a text.
#[verifier::external_body]
pub(crate) fn base64_decode(text: &str) -> (r: Result<Vec<u8>, String>)
    ensures
        match r {
            Ok(data) => base64_decoded(text@) == Ok::<Seq<u8>, Seq<char>>(data@),
            Err(e) => base64_decoded(text@) == Err::<Seq<u8>, Seq<char>>(e@),
        },
{
    base64::engine::general_purpose::URL_SAFE_NO_PAD.decode(text).map_err(|e| e.to_string())
}

/// The most bytes that ChaCha20-Poly1305 seals under one key and nonce: its counter of 64-byte
/// blocks allows no more.
pub const SEAL_LIMIT: u64 = 274_877_906_816;

/// ChaCha20-Poly1305 under `key` and `nonce`: what `plain` is sealed to.
pub uninterp spec fn sealed(key: Seq<u8>, nonce: Seq<u8>, plain: Seq<u8>) -> Seq<u8>;

/// ChaCha20-Poly1305 under `key` and `nonce`: what `boxed` opens to, if it is authentic.
pub uninterp spec fn opened(key: Seq<u8>, nonce: Seq<u8>, boxed: Seq<u8>) -> Option<Seq<u8>>;

/// `chacha20poly1305::ChaCha20Poly1305::encrypt` without associated data: the sealed bytes, a
/// 16-byte tag longer than `plain`, which open to `plain` again under the same key and nonce. It
/// fails on nothing that is within the limit.
#[verifier::external_body]
pub(crate) fn seal(key: &[u8], nonce: &[u8], plain: &[u8]) -> (r: Option<Vec<u8>>)
    requires
        key@.len() == 32,
        nonce@.len() == 12,
        plain@.len() <= SEAL_LIMIT,
        plain@.len() + 16 <= isize::MAX,
    ensures
        r is Some,
        r->0@ == sealed(key@, nonce@, plain@),
        r->0@.len() == plain@.len() + 16,
        opened(key@, nonce@, r->0@) == Some(plain@),
{
    let cipher = chacha20poly1305::ChaCha20Poly1305::new(
        chacha20poly1305::Key::from_slice(key),
    );
    cipher.encrypt(chacha20poly1305::Nonce::from_slice(nonce), plain).ok()
}

/// `chacha20poly1305::ChaCha20Poly1305::decrypt` without associated data: what `boxed` opens to,
/// or nothing where it is not authentic under the key and nonce.
#[verifier::external_body]
pub(crate) fn open(key: &[u8], nonce: &[u8], boxed: &[u8]) -> (r: Option<Vec<u8>>)
    requires
        key@.len() == 32,
        nonce@.len() == 12,
        boxed@.len() <= SEAL_LIMIT + 16,
    ensures
        match r {
            Some(plain) => opened(key@, nonce@, boxed@) == Some(plain@),
            None => opened(key@, nonce@, boxed@) is None,
        },
{
    let cipher = chacha20poly1305::ChaCha20Poly1305::new(
        chacha20poly1305::Key::from_slice(key),
    );
    cipher.decrypt(chacha20poly1305::Nonce::from_slice(nonce), boxed).ok()
}

/// The compact serialisation of the JSON value that `text` holds, if it holds one.
pub uninterp spec fn json_compacted(text: Seq<char>) -> Option<Seq<char>>;

/// The string at `pointer` in the JSON value that `text` holds.
pub uninterp spec fn json_string_at(text: Seq<char>, pointer: Seq<char>) -> Option<Seq<char>>;

/// The unsigned 64-bit integer at `pointer` in the JSON value that `text` holds.
pub uninterp spec fn json_number_at(text: Seq<char>, pointer: Seq<char>) -> Option<u64>;

/// `serde_json::from_str` and `serde_json::Value::to_string`: the compact serialisation of the
/// value that `text` holds, or nothing where it is not JSON.
#[verifier::external_body]
pub(crate) fn json_compact(text: &str) -> (r: Option<String>)
    ensures
        match r {
            Some(s) => json_compacted(text@) == Some(s@),
            None => json_compacted(text@) is None,
        },
{
    serde_json::from_str::<serde_json::Value>(text).ok().map(|v| v.to_string())
}

/// `serde_json::Value::pointer` and `as_str`: the string at `pointer`, or nothing where there is
/// no value or it is not a string.
#[verifier::external_body]
pub(crate) fn json_string(text: &str, pointer: &str) -> (r: Option<String>)
    ensures
        match r {
            Some(s) => json_string_at(text@, pointer@) == Some(s@),
            None => json_string_at(text@, pointer@) is None,
        },
{
    let value = serde_json::from_str::<serde_json::Value>(text).ok()?;
    value.pointer(pointer)?.as_str().map(str::to_string)
}

/// `serde_json::Value::pointer` and `as_u64`: the number at `pointer`, or nothing where there is
/// no value or it is not an unsigned 64-bit integer.
#[verifier::external_body]
pub(crate) fn json_number(text: &str, pointer: &str) -> (r: Option<u64>)
    ensures
        r == json_number_at(text@, pointer@),
{
    let value = serde_json::from_str::<serde_json::Value>(text).ok()?;
    value.pointer(pointer)?.as_u64()
}

/// The picture of a QR code that holds a text, as SVG at least `side` pixels wide and high, with a
/// quiet zone or without, or why there is none.
pub uninterp spec fn qr_picture(text: Seq<char>, side: u32, quiet_zone: bool) -> Result<Seq<char>, Seq<char>>;

/// `qrcode::QrCode::new` and `render`: the QR code that holds `text`, drawn as SVG at least `side`
/// pixels wide and high, with a quiet zone or without, or the text of the error where it cannot be
/// made.
#[verifier::external_body]
pub(crate) fn qr_svg(text: &str, side: u32, quiet_zone: bool) -> (r: Result<String, String>)
    requires
        side <= 0x7fff_ffff,
    ensures
        match r {
            Ok(svg) => qr_picture(text@, side, quiet_zone) == Ok::<Seq<char>, Seq<char>>(svg@),
            Err(e) => qr_picture(text@, side, quiet_zone) == Err::<Seq<char>, Seq<char>>(e@),
        },
{
    match qrcode::QrCode::new(text.as_bytes()) {
        Ok(code) => Ok(
            code.render::<qrcode::render::svg::Color>().min_dimensions(side, side).quiet_zone(
                quiet_zone,
            ).build(),
        ),
        Err(e) => Err(e.to_string()),
    }
}

/// `rand::thread_rng`: `n` random bytes. Nothing is said of which.
#[verifier::external_body]
pub(crate) fn fresh_bytes(n: usize) -> (r: Vec<u8>)
    requires
        n <= isize::MAX,
    ensures
        r@.len() == n,
{
    let mut out = vec![0u8; n];
    rand::thread_rng().fill_bytes(&mut out);
    out
}

/// `rand::rngs::OsRng`: `n` bytes from the operating system. Nothing is said of which.
#[verifier::external_body]
pub(crate) fn random_bytes(n: usize) -> (r: Vec<u8>)
    requires
        n <= isize::MAX,
    ensures
        r@.len() == n,
{
    let mut out = vec![0u8; n];
    rand::rngs::OsRng.fill_bytes(&mut out);
    out
}

} // verus!
