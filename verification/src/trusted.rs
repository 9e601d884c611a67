//! The calls into std and outside crates that Verus cannot read. Each item states
//! what the called function's source or documentation shows; nothing here is proved.
use vstd::prelude::*;
use std::hash::BuildHasher;
use base64::Engine;
use chacha20poly1305::aead::{Aead, KeyInit};
use zeroize::Zeroize;
use rand::RngCore;
use image::ImageEncoder;
use crate::encoding::{b64_encode, uuid_text};

verus! {

/// The value that `DefaultHasher` (as built by `DefaultHasher::new`) produces for a
/// string slice. `DefaultHasher::new` always starts from the same keys (it is not
/// seeded per process), so for a given standard library this is a function of the
/// characters alone; the algorithm may differ between Rust releases.
pub uninterp spec fn default_hash_of_str(s: Seq<char>) -> u64;

/// The value that `DefaultHasher` (as built by `DefaultHasher::new`) produces for a
/// byte slice. The slice's length enters the hash as a `usize` in the target's
/// native width and byte order, so this is a function of the bytes for a given
/// standard library and target.
pub uninterp spec fn default_hash_of_bytes(b: Seq<u8>) -> u64;

/// Calls `BuildHasher::hash_one` of `BuildHasherDefault<DefaultHasher>` on a `&str`,
/// which hashes it with a fresh `DefaultHasher`. Claimed: the result is
/// `default_hash_of_str` of the characters.
#[verifier::external_body]
pub(crate) fn hash_str(s: &str) -> (r: u64)
    ensures
        r == default_hash_of_str(s@),
{
    std::hash::BuildHasherDefault::<std::hash::DefaultHasher>::default().hash_one(s)
}

/// Calls `BuildHasher::hash_one` of `BuildHasherDefault<DefaultHasher>` on a `&[u8]`.
/// Claimed: the result is `default_hash_of_bytes` of the bytes.
#[verifier::external_body]
pub(crate) fn hash_bytes(b: &[u8]) -> (r: u64)
    ensures
        r == default_hash_of_bytes(b@),
{
    std::hash::BuildHasherDefault::<std::hash::DefaultHasher>::default().hash_one(b)
}


/// Whether `char::is_alphanumeric` holds of a character.
pub uninterp spec fn unicode_alphanumeric(c: char) -> bool;

/// Calls `char::is_alphanumeric`, which holds of characters with the Unicode
/// Alphabetic property or a numeric general category. Claimed: the result is
/// `unicode_alphanumeric`, and among ASCII characters it holds of letters and digits
/// only.
#[verifier::external_body]
pub(crate) fn is_alphanumeric_char(c: char) -> (r: bool)
    ensures
        r == unicode_alphanumeric(c),
        (c as u32) < 0x80 ==> (r <==> ('a' <= c <= 'z' || 'A' <= c <= 'Z' || '0' <= c <= '9')),
{
    c.is_alphanumeric()
}

/// Errors of `base64` decoding.
#[verifier::external_type_specification]
#[verifier::external_body]
pub struct ExDecodeError(base64::DecodeError);

/// Errors of `argon2` key derivation.
#[verifier::external_type_specification]
#[verifier::external_body]
pub struct ExArgon2Error(argon2::Error);

/// The error of ChaCha20-Poly1305 sealing and opening.
#[verifier::external_type_specification]
#[verifier::external_body]
pub struct ExAeadError(chacha20poly1305::aead::Error);

/// Calls `Engine::encode` of `base64::engine::general_purpose::STANDARD`.
/// Claimed: the result is the padded standard-alphabet encoding of the bytes.
#[verifier::external_body]
pub(crate) fn b64_standard_encode(b: &[u8]) -> (r: String)
    ensures
        r@ == b64_encode(b@, false, true),
{
    base64::engine::general_purpose::STANDARD.encode(b)
}

/// Calls `Engine::encode` of `base64::engine::general_purpose::URL_SAFE_NO_PAD`.
/// Claimed: the result is the unpadded URL-safe encoding of the bytes.
#[verifier::external_body]
pub(crate) fn b64_url_nopad_encode(b: &[u8]) -> (r: String)
    ensures
        r@ == b64_encode(b@, true, false),
{
    base64::engine::general_purpose::URL_SAFE_NO_PAD.encode(b)
}

/// What `STANDARD.decode` gives for a text: the bytes, or none when it rejects it.
pub uninterp spec fn b64_standard_decoded(s: Seq<char>) -> Option<Seq<u8>>;

/// Calls `Engine::decode` of `base64::engine::general_purpose::STANDARD` on the
/// text's bytes. Claimed: it succeeds exactly when `b64_standard_decoded` has a value,
/// with those bytes; and it gives back the bytes of any text that `STANDARD.encode`
/// produced (padded canonical input is what this engine decodes).
#[verifier::external_body]
pub(crate) fn b64_standard_decode(s: &str) -> (r: Result<Vec<u8>, base64::DecodeError>)
    ensures
        (r is Ok) == (b64_standard_decoded(s@) is Some),
        r matches Ok(v) ==> Some(v@) == b64_standard_decoded(s@),
        forall|b: Seq<u8>| #[trigger] b64_encode(b, false, true) == s@ ==> r is Ok && r->Ok_0@
            == b,
{
    base64::engine::general_purpose::STANDARD.decode(s)
}

/// Calls `ToString::to_string` on a base64 `DecodeError` (its `Display` text).
/// Nothing is claimed of the text.
#[verifier::external_body]
pub(crate) fn decode_error_text(e: &base64::DecodeError) -> String {
    e.to_string()
}

/// The 32-byte key that `Argon2::default()` (Argon2id, version 0x13, m=19456 KiB,
/// t=2, p=1) derives from a password and a salt.
pub uninterp spec fn argon2id_default_key(pwd: Seq<u8>, salt: Seq<u8>) -> Seq<u8>;

/// Calls `Argon2::default().hash_password_into(pwd, salt, out)` with a 32-byte
/// output. Claimed, from the crate's `verify_inputs`: it fails exactly when the
/// password is longer than 0xFFFF_FFFF bytes or the salt is shorter than 8 or longer
/// than 0xFFFF_FFFF bytes; on success `out` holds `argon2id_default_key`.
#[verifier::external_body]
pub(crate) fn argon2_hash_into(pwd: &[u8], salt: &[u8], out: &mut [u8; 32]) -> (r: Result<
    (),
    argon2::Error,
>)
    ensures
        (r is Ok) == (pwd@.len() <= 0xFFFF_FFFF && 8 <= salt@.len() <= 0xFFFF_FFFF),
        r is Ok ==> final(out)@ == argon2id_default_key(pwd@, salt@),
{
    argon2::Argon2::default().hash_password_into(pwd, salt, out)
}

/// Calls `ToString::to_string` on an `argon2::Error`. Nothing is claimed of the text.
#[verifier::external_body]
pub(crate) fn argon2_error_text(e: &argon2::Error) -> String {
    e.to_string()
}

/// The ciphertext (message followed by the 16-byte tag) that ChaCha20-Poly1305
/// produces for a key, a nonce and a plaintext, with no associated data.
pub uninterp spec fn chacha20poly1305_sealed(key: Seq<u8>, nonce: Seq<u8>, pt: Seq<u8>) -> Seq<u8>;

/// What ChaCha20-Poly1305 opening gives for a key, a nonce and a ciphertext: the
/// plaintext, or none when the tag does not authenticate.
pub uninterp spec fn chacha20poly1305_opened(key: Seq<u8>, nonce: Seq<u8>, ct: Seq<u8>) -> Option<
    Seq<u8>,
>;

/// Calls `ChaCha20Poly1305::new(key).encrypt(nonce, pt)` (`Key::from_slice` and
/// `Nonce::from_slice` panic on other lengths than 32 and 12, hence the `requires`). Claimed, from the crate's
/// `encrypt_in_place_detached`: it fails exactly when the plaintext has 2^32 - 1 or
/// more 64-byte blocks; otherwise the result is `chacha20poly1305_sealed`, 16 bytes
/// longer than the plaintext.
#[verifier::external_body]
pub(crate) fn chacha_seal(key: &[u8], nonce: &[u8], pt: &[u8]) -> (r: Result<
    Vec<u8>,
    chacha20poly1305::aead::Error,
>)
    requires
        key@.len() == 32,
        nonce@.len() == 12,
    ensures
        (r is Ok) == (pt@.len() / 64 < 0xFFFF_FFFF),
        r matches Ok(c) ==> c@ == chacha20poly1305_sealed(key@, nonce@, pt@),
        r matches Ok(c) ==> c@.len() == pt@.len() + 16,
{
    chacha20poly1305::ChaCha20Poly1305::new(chacha20poly1305::Key::from_slice(key)).encrypt(
        chacha20poly1305::Nonce::from_slice(nonce),
        pt,
    )
}

/// Calls `ChaCha20Poly1305::new(key).decrypt(nonce, ct)`. Claimed: it succeeds exactly
/// when `chacha20poly1305_opened` has a value, with that plaintext, and it gives back
/// the plaintext of any ciphertext that sealing with the same key and nonce produced
/// (the AEAD's correctness).
#[verifier::external_body]
pub(crate) fn chacha_open(key: &[u8], nonce: &[u8], ct: &[u8]) -> (r: Result<
    Vec<u8>,
    chacha20poly1305::aead::Error,
>)
    requires
        key@.len() == 32,
        nonce@.len() == 12,
    ensures
        (r is Ok) == (chacha20poly1305_opened(key@, nonce@, ct@) is Some),
        r matches Ok(p) ==> Some(p@) == chacha20poly1305_opened(key@, nonce@, ct@),
        forall|pt: Seq<u8>| #[trigger]
            chacha20poly1305_sealed(key@, nonce@, pt) == ct@ && pt.len() / 64 < 0xFFFF_FFFF
                ==> r is Ok && r->Ok_0@ == pt,
{
    chacha20poly1305::ChaCha20Poly1305::new(chacha20poly1305::Key::from_slice(key)).decrypt(
        chacha20poly1305::Nonce::from_slice(nonce),
        ct,
    )
}

/// Calls `ToString::to_string` on `aead::Error`, whose `Display` writes "aead::Error".
#[verifier::external_body]
pub(crate) fn aead_error_text(e: &chacha20poly1305::aead::Error) -> (r: String)
    ensures
        r@ == "aead::Error"@,
{
    e.to_string()
}

/// Calls `Zeroize::zeroize` on a key, which overwrites every byte with zero.
#[verifier::external_body]
pub(crate) fn zeroize_key(k: &mut [u8; 32])
    ensures
        final(k)@ == Seq::new(32, |_i: int| 0u8),
{
    k.zeroize()
}

/// Calls `rand::thread_rng().fill_bytes(buf)`. The bytes are random: nothing is
/// claimed of them. (`thread_rng` panics only if the operating system's random
/// source fails on first use.)
#[verifier::external_body]
pub(crate) fn fill_random<const N: usize>(buf: &mut [u8; N]) {
    rand::thread_rng().fill_bytes(buf)
}

/// The 128-bit value that `Uuid::parse_str` accepts a text as, if any.
pub uninterp spec fn uuid_parsed(s: Seq<char>) -> Option<u128>;

/// Errors of `Uuid::parse_str`.
#[verifier::external_type_specification]
#[verifier::external_body]
pub struct ExUuidError(uuid::Error);

/// Calls `Uuid::parse_str` and takes `as_u128` of the result. Claimed: it succeeds
/// exactly when `uuid_parsed` has a value, with that value, and the hyphenated text
/// of a value parses to that value (the crate documents parsing of the hyphenated form).
#[verifier::external_body]
pub(crate) fn uuid_parse(s: &str) -> (r: Result<u128, uuid::Error>)
    ensures
        (r is Ok) == (uuid_parsed(s@) is Some),
        r is Ok ==> uuid_parsed(s@) == Some(r->Ok_0),
        forall|v: u128| #[trigger] uuid_text(v) == s@ ==> r is Ok && r->Ok_0 == v,
{
    match uuid::Uuid::parse_str(s) {
        Ok(u) => Ok(u.as_u128()),
        Err(e) => Err(e),
    }
}

/// Calls `ToString::to_string` on a `uuid::Error`. Nothing is claimed of the text.
#[verifier::external_body]
pub(crate) fn uuid_error_text(e: &uuid::Error) -> String {
    e.to_string()
}

/// Calls `Uuid::new_v4` and takes `as_u128`. The value is random; claimed, from the
/// crate's masking, only that its version nibble is 4 and its variant bits are `10`.
#[verifier::external_body]
pub(crate) fn new_uuid_v4() -> (r: u128)
    ensures
        (r as nat / 0x1_0000_0000_0000_0000_000) % 16 == 4,
        (r as nat / 0x4000_0000_0000_0000) % 4 == 2,
{
    uuid::Uuid::new_v4().as_u128()
}

/// Errors of the `image` crate.
#[verifier::external_type_specification]
#[verifier::external_body]
pub struct ExImageError(image::ImageError);

/// The PNG file that the `image` crate writes for `width` x `height` RGBA8 pixels,
/// or none when its encoder refuses them.
pub uninterp spec fn png_of_rgba(width: u32, height: u32, pixels: Seq<u8>) -> Option<Seq<u8>>;

/// Calls `ImageBuffer::<Rgba<u8>, Vec<u8>>::from_raw(width, height, rgba.to_vec())` and
/// `write_to(.., ImageFormat::Png)` on the buffer. Claimed, from the crate's
/// `check_image_fits`: `from_raw` refuses (none) exactly when the data holds fewer than
/// `4 * width * height` bytes; the encoder reads those first `4 * width * height`
/// bytes, and what it writes is `png_of_rgba` of them.
#[verifier::external_body]
pub(crate) fn png_encode_rgba(rgba: &[u8], width: u32, height: u32) -> (r: Option<
    Result<Vec<u8>, image::ImageError>,
>)
    ensures
        (r is None) == (rgba@.len() < 4 * width * height),
        r matches Some(Ok(p)) ==> Some(p@) == png_of_rgba(
            width,
            height,
            rgba@.take(4 * width * height),
        ),
        r matches Some(Err(_)) ==> png_of_rgba(width, height, rgba@.take(4 * width * height)) is None,
{
    match image::ImageBuffer::<image::Rgba<u8>, Vec<u8>>::from_raw(width, height, rgba.to_vec()) {
        None => None,
        Some(img) => {
            let mut out: Vec<u8> = Vec::new();
            match img.write_to(&mut std::io::Cursor::new(&mut out), image::ImageFormat::Png) {
                Ok(()) => Some(Ok(out)),
                Err(e) => Some(Err(e)),
            }
        },
    }
}

/// Calls `ToString::to_string` on an `image::ImageError`. Nothing is claimed of the text.
#[verifier::external_body]
pub(crate) fn image_error_text(e: &image::ImageError) -> String {
    e.to_string()
}

/// A point in time of the system clock.
#[verifier::external_type_specification]
#[verifier::external_body]
pub struct ExSystemTime(std::time::SystemTime);

/// Calls `SystemTime::now`. Nothing is claimed: it is the time.
#[verifier::external_body]
pub(crate) fn system_time_now() -> std::time::SystemTime {
    std::time::SystemTime::now()
}

/// Calls `SystemTime::duration_since(UNIX_EPOCH)`; none when the time lies before the
/// epoch. Nothing is claimed of the span.
#[verifier::external_body]
pub(crate) fn since_unix_epoch(t: &std::time::SystemTime) -> Option<std::time::Duration> {
    t.duration_since(std::time::UNIX_EPOCH).ok()
}

/// Calls `Duration::as_millis`. Nothing is claimed of the count.
#[verifier::external_body]
pub(crate) fn duration_millis(d: &std::time::Duration) -> u128 {
    d.as_millis()
}

/// The PNG that `PngEncoder::new` with default settings writes for `width` x `height`
/// RGBA8 pixels, or none when it refuses them.
pub uninterp spec fn png_encoder_output(width: u32, height: u32, rgba: Seq<u8>) -> Option<Seq<u8>>;

/// Calls `PngEncoder::new(&mut out).write_image(rgba, width, height, ExtendedColorType::Rgba8)`
/// (which asserts that the buffer holds exactly `4 * width * height` bytes, hence the
/// `requires`). Claimed: it succeeds exactly when `png_encoder_output` has a value,
/// and then `out` holds it.
#[verifier::external_body]
pub(crate) fn png_encoder_write_rgba8(rgba: &[u8], width: u32, height: u32) -> (r: Result<
    Vec<u8>,
    image::ImageError,
>)
    requires
        rgba@.len() == 4 * width * height,
    ensures
        (r is Ok) == (png_encoder_output(width, height, rgba@) is Some),
        r is Ok ==> Some(r->Ok_0@) == png_encoder_output(width, height, rgba@),
{
    let mut out: Vec<u8> = Vec::new();
    let res = image::codecs::png::PngEncoder::new(&mut out).write_image(
        rgba,
        width,
        height,
        image::ExtendedColorType::Rgba8,
    );
    match res {
        Ok(()) => Ok(out),
        Err(e) => Err(e),
    }
}

/// The RGBA8 pixels (width, height, bytes) that `image::load_from_memory` followed by
/// `to_rgba8` gives for an encoded image, or none when it cannot decode it.
pub uninterp spec fn decoded_rgba8(bytes: Seq<u8>) -> Option<(u32, u32, Seq<u8>)>;

/// Calls `image::load_from_memory`, then `to_rgba8`, `dimensions` and `into_raw`.
/// Claimed: it succeeds exactly when `decoded_rgba8` has a value, which it returns;
/// the pixel buffer of an RGBA8 image holds `4 * width * height` bytes.
#[verifier::external_body]
pub(crate) fn decode_to_rgba8(bytes: &[u8]) -> (r: Result<(u32, u32, Vec<u8>), image::ImageError>)
    ensures
        (r is Ok) == (decoded_rgba8(bytes@) is Some),
        r is Ok ==> decoded_rgba8(bytes@) == Some((r->Ok_0.0, r->Ok_0.1, r->Ok_0.2@)),
        r is Ok ==> r->Ok_0.2@.len() == 4 * r->Ok_0.0 * r->Ok_0.1,
{
    match image::load_from_memory(bytes) {
        Ok(img) => {
            let rgba = img.to_rgba8();
            let (w, h) = rgba.dimensions();
            Ok((w, h, rgba.into_raw()))
        },
        Err(e) => Err(e),
    }
}

} // verus!
