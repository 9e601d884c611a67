//! Encrypted folder sync: the payload is sealed with ChaCha20-Poly1305 under a key
//! that Argon2 derives from the passphrase and a per-install salt.
use vstd::prelude::*;
use vstd::string::StringSliceAdditionalSpecFns;
use vstd::utf8::encode_utf8;
use crate::models::{ClipboardItem, Settings};
use crate::text::{has_prefix, concat, trim_chars, trim};
use crate::encoding::b64_encode;
use crate::trusted::{
    argon2id_default_key, argon2_hash_into, argon2_error_text, b64_standard_encode,
    b64_standard_decode, b64_standard_decoded, decode_error_text, chacha20poly1305_sealed,
    chacha20poly1305_opened, chacha_seal, chacha_open, aead_error_text, zeroize_key, fill_random,
};

verus! {

/// The plaintext payload of a sync file.
#[derive(Debug)]
pub struct SyncPlain {
    pub v: u32,
    pub updated_at_ms: i64,
    pub device_id: String,
    pub items: Vec<ClipboardItem>,
}

/// The sync file as stored in the folder: base64 salt, nonce and ciphertext.
#[derive(Debug)]
pub struct SyncEncryptedFile {
    pub v: u32,
    pub salt_b64: String,
    pub nonce_b64: String,
    pub ct_b64: String,
}

/// Whether Argon2 accepts a password and a salt.
pub open spec fn argon2_accepts(pwd: Seq<u8>, salt: Seq<u8>) -> bool {
    pwd.len() <= 0xFFFF_FFFF && 8 <= salt.len() <= 0xFFFF_FFFF
}

/// Whether ChaCha20-Poly1305 accepts a plaintext of this length.
pub open spec fn seal_accepts(pt: Seq<u8>) -> bool {
    pt.len() / 64 < 0xFFFF_FFFF
}

/// The key derived from a passphrase's UTF-8 bytes and a salt.
pub open spec fn sync_key(pwd: Seq<u8>, salt: Seq<u8>) -> Seq<u8> {
    argon2id_default_key(pwd, salt)
}

/// `f` is the file that sealing `pt` with passphrase bytes `pwd`, `salt` and `nonce` gives.
pub open spec fn is_sealed_file(
    f: SyncEncryptedFile,
    pwd: Seq<u8>,
    salt: Seq<u8>,
    nonce: Seq<u8>,
    pt: Seq<u8>,
) -> bool {
    &&& f.v == 1
    &&& f.salt_b64@ == b64_encode(salt, false, true)
    &&& f.nonce_b64@ == b64_encode(nonce, false, true)
    &&& f.ct_b64@ == b64_encode(
        chacha20poly1305_sealed(sync_key(pwd, salt), nonce, pt),
        false,
        true,
    )
}

/// The plaintext that opening `f` with passphrase bytes `pwd` gives, if any.
pub open spec fn opened_file(pwd: Seq<u8>, f: SyncEncryptedFile) -> Option<Seq<u8>> {
    match (
        b64_standard_decoded(f.salt_b64@),
        b64_standard_decoded(f.nonce_b64@),
        b64_standard_decoded(f.ct_b64@),
    ) {
        (Some(salt), Some(nonce), Some(ct)) => {
            if nonce.len() == 12 && argon2_accepts(pwd, salt) {
                chacha20poly1305_opened(sync_key(pwd, salt), nonce, ct)
            } else {
                None
            }
        },
        _ => None,
    }
}

/// All three fields of `f` are valid base64.
pub open spec fn decoded_all(f: SyncEncryptedFile) -> bool {
    &&& b64_standard_decoded(f.salt_b64@) is Some
    &&& b64_standard_decoded(f.nonce_b64@) is Some
    &&& b64_standard_decoded(f.ct_b64@) is Some
}

/// Derive the 32-byte sync key from a passphrase and a salt.
pub fn derive_key(passphrase: &str, salt: &[u8]) -> (r: Result<[u8; 32], String>)
    ensures
        (r is Ok) == argon2_accepts(passphrase.spec_bytes(), salt@),
        r matches Ok(k) ==> k@ == sync_key(passphrase.spec_bytes(), salt@),
        r matches Err(m) ==> has_prefix(m@, "argon2 failed: "@),
{
    let mut out = [0u8; 32];
    match argon2_hash_into(passphrase.as_bytes(), salt, &mut out) {
        Ok(()) => Ok(out),
        Err(e) => {
            let m = concat("argon2 failed: ", argon2_error_text(&e).as_str());
            proof {
                assert(m@.take("argon2 failed: "@.len() as int) == "argon2 failed: "@);
            }
            Err(m)
        },
    }
}

/// Seal `plaintext` with a given nonce.
pub fn encrypt_with_nonce(passphrase: &str, salt: &[u8], nonce: &[u8; 12], plaintext: &[u8]) -> (r:
    Result<SyncEncryptedFile, String>)
    ensures
        (r is Ok) == (argon2_accepts(passphrase.spec_bytes(), salt@) && seal_accepts(plaintext@)),
        r matches Ok(f) ==> is_sealed_file(f, passphrase.spec_bytes(), salt@, nonce@, plaintext@),
        r matches Err(m) ==> if !argon2_accepts(passphrase.spec_bytes(), salt@) {
            has_prefix(m@, "argon2 failed: "@)
        } else {
            m@ == "encrypt failed: aead::Error"@
        },
{
    let mut key = derive_key(passphrase, salt)?;
    let ct = match chacha_seal(key.as_slice(), nonce.as_slice(), plaintext) {
        Ok(c) => c,
        Err(e) => {
            let m = concat("encrypt failed: ", aead_error_text(&e).as_str());
            proof {
                reveal_strlit("encrypt failed: ");
                reveal_strlit("aead::Error");
                reveal_strlit("encrypt failed: aead::Error");
                assert(m@ =~= "encrypt failed: aead::Error"@);
            }
            return Err(m);
        },
    };
    zeroize_key(&mut key);
    Ok(
        SyncEncryptedFile {
            v: 1,
            salt_b64: b64_standard_encode(salt),
            nonce_b64: b64_standard_encode(nonce.as_slice()),
            ct_b64: b64_standard_encode(ct.as_slice()),
        },
    )
}

/// Seal `plaintext` under a fresh random nonce.
pub fn encrypt(passphrase: &str, salt: &[u8], plaintext: &[u8]) -> (r: Result<
    SyncEncryptedFile,
    String,
>)
    ensures
        (r is Ok) == (argon2_accepts(passphrase.spec_bytes(), salt@) && seal_accepts(plaintext@)),
        r matches Ok(f) ==> exists|nonce: Seq<u8>|
            nonce.len() == 12 && #[trigger] is_sealed_file(
                f,
                passphrase.spec_bytes(),
                salt@,
                nonce,
                plaintext@,
            ),
        r matches Err(m) ==> if !argon2_accepts(passphrase.spec_bytes(), salt@) {
            has_prefix(m@, "argon2 failed: "@)
        } else {
            m@ == "encrypt failed: aead::Error"@
        },
{
    let mut nonce = [0u8; 12];
    fill_random(&mut nonce);
    let r = encrypt_with_nonce(passphrase, salt, &nonce, plaintext);
    proof {
        if r is Ok {
            assert(is_sealed_file(r->Ok_0, passphrase.spec_bytes(), salt@, nonce@, plaintext@));
        }
    }
    r
}

fn decode_field(field: &String, prefix: &str) -> (r: Result<Vec<u8>, String>)
    ensures
        (r is Ok) == (b64_standard_decoded(field@) is Some),
        r matches Ok(v) ==> Some(v@) == b64_standard_decoded(field@),
        r matches Err(m) ==> has_prefix(m@, prefix@),
        forall|b: Seq<u8>| #[trigger] b64_encode(b, false, true) == field@ ==> r is Ok
            && r->Ok_0@ == b,
{
    match b64_standard_decode(field.as_str()) {
        Ok(v) => Ok(v),
        Err(e) => {
            let m = concat(prefix, decode_error_text(&e).as_str());
            proof {
                assert(m@.take(prefix@.len() as int) == prefix@);
            }
            Err(m)
        },
    }
}

/// Open a sync file with a passphrase.
pub fn decrypt(passphrase: &str, enc: &SyncEncryptedFile) -> (r: Result<Vec<u8>, String>)
    ensures
        (r is Ok) == (opened_file(passphrase.spec_bytes(), *enc) is Some),
        r matches Ok(p) ==> Some(p@) == opened_file(passphrase.spec_bytes(), *enc),
        b64_standard_decoded(enc.salt_b64@) is None ==> r is Err && has_prefix(
            r->Err_0@,
            "invalid salt_b64: "@,
        ),
        b64_standard_decoded(enc.salt_b64@) is Some && b64_standard_decoded(enc.nonce_b64@) is None
            ==> r is Err && has_prefix(r->Err_0@, "invalid nonce_b64: "@),
        b64_standard_decoded(enc.salt_b64@) is Some && b64_standard_decoded(enc.nonce_b64@) is Some
            && b64_standard_decoded(enc.ct_b64@) is None ==> r is Err && has_prefix(
            r->Err_0@,
            "invalid ct_b64: "@,
        ),
        decoded_all(*enc) && b64_standard_decoded(enc.nonce_b64@)->0.len() != 12 ==> r is Err
            && r->Err_0@ == "invalid nonce length"@,
        decoded_all(*enc) && b64_standard_decoded(enc.nonce_b64@)->0.len() == 12
            && !argon2_accepts(passphrase.spec_bytes(), b64_standard_decoded(enc.salt_b64@)->0)
            ==> r is Err && has_prefix(r->Err_0@, "argon2 failed: "@),
        decoded_all(*enc) && b64_standard_decoded(enc.nonce_b64@)->0.len() == 12 && argon2_accepts(
            passphrase.spec_bytes(),
            b64_standard_decoded(enc.salt_b64@)->0,
        ) && opened_file(passphrase.spec_bytes(), *enc) is None ==> r is Err && r->Err_0@
            == "decrypt failed (wrong passphrase?)"@,
        // Whatever `encrypt` sealed under this passphrase opens to its plaintext.
        forall|salt: Seq<u8>, nonce: Seq<u8>, pt: Seq<u8>|
            nonce.len() == 12 && argon2_accepts(passphrase.spec_bytes(), salt) && seal_accepts(pt)
                && #[trigger] is_sealed_file(*enc, passphrase.spec_bytes(), salt, nonce, pt)
                ==> r is Ok && r->Ok_0@ == pt,
{
    let salt = decode_field(&enc.salt_b64, "invalid salt_b64: ")?;
    let nonce = decode_field(&enc.nonce_b64, "invalid nonce_b64: ")?;
    let ct = decode_field(&enc.ct_b64, "invalid ct_b64: ")?;
    if nonce.len() != 12 {
        return Err(String::from_str("invalid nonce length"));
    }
    let mut key = derive_key(passphrase, salt.as_slice())?;
    let pt = match chacha_open(key.as_slice(), nonce.as_slice(), ct.as_slice()) {
        Ok(p) => Ok(p),
        Err(_) => Err(String::from_str("decrypt failed (wrong passphrase?)")),
    };
    zeroize_key(&mut key);
    pt
}

/// Which folder to sync with: none when sync is off, an error when sync is on but
/// no folder (or a blank one) is set.
pub fn sync_target(settings: &Settings) -> (r: Result<Option<String>, String>)
    ensures
        !settings.sync_enabled ==> r == Ok::<Option<String>, String>(None),
        settings.sync_enabled && settings.sync_folder is Some && trim_chars(
            settings.sync_folder->0@,
        ).len() > 0 ==> r == Ok::<Option<String>, String>(settings.sync_folder),
        settings.sync_enabled && (settings.sync_folder is None || trim_chars(
            settings.sync_folder->0@,
        ).len() == 0) ==> r is Err && r->Err_0@ == "sync is enabled but sync folder is not set"@,
{
    if !settings.sync_enabled {
        return Ok(None);
    }
    match &settings.sync_folder {
        Some(f) => {
            if !trim(f.as_str()).as_str().is_empty() {
                return Ok(Some(f.clone()));
            }
        },
        None => {},
    }
    Err(String::from_str("sync is enabled but sync folder is not set"))
}

/// The sync salt stored in the settings, decoded.
pub fn salt_from_settings(settings: &Settings) -> (r: Result<Vec<u8>, String>)
    ensures
        settings.sync_salt_b64 is None ==> r is Err && r->Err_0@ == "sync salt missing"@,
        settings.sync_salt_b64 is Some ==> {
            &&& (r is Ok) == (b64_standard_decoded(settings.sync_salt_b64->0@) is Some)
            &&& r is Ok ==> Some(r->Ok_0@) == b64_standard_decoded(settings.sync_salt_b64->0@)
            &&& r is Err ==> has_prefix(r->Err_0@, "invalid sync_salt_b64: "@)
        },
{
    match &settings.sync_salt_b64 {
        Some(b64) => decode_field(b64, "invalid sync_salt_b64: "),
        None => Err(String::from_str("sync salt missing")),
    }
}

/// The plaintext payload that a device exports.
pub fn sync_plain(device_id: String, items: Vec<ClipboardItem>, updated_at_ms: i64) -> (r: SyncPlain)
    ensures
        r == (SyncPlain { v: 1, updated_at_ms, device_id, items }),
{
    SyncPlain { v: 1, updated_at_ms, device_id, items }
}

/// Seal an export payload: the salt comes from the settings and a passphrase must be set.
pub fn seal_payload(settings: &Settings, passphrase: Option<String>, plaintext: &[u8]) -> (r:
    Result<SyncEncryptedFile, String>)
    ensures
        settings.sync_salt_b64 is None ==> r is Err && r->Err_0@ == "sync salt missing"@,
        settings.sync_salt_b64 is Some && b64_standard_decoded(settings.sync_salt_b64->0@) is None
            ==> r is Err && has_prefix(r->Err_0@, "invalid sync_salt_b64: "@),
        settings.sync_salt_b64 is Some && b64_standard_decoded(settings.sync_salt_b64->0@) is Some
            && passphrase is None ==> r is Err && r->Err_0@ == "sync passphrase not set"@,
        r is Ok ==> settings.sync_salt_b64 is Some && passphrase is Some && exists|nonce: Seq<u8>|
            nonce.len() == 12 && #[trigger] is_sealed_file(
                r->Ok_0,
                encode_utf8(passphrase->0@),
                b64_standard_decoded(settings.sync_salt_b64->0@)->0,
                nonce,
                plaintext@,
            ),
        settings.sync_salt_b64 is Some && b64_standard_decoded(settings.sync_salt_b64->0@) is Some
            && passphrase is Some ==> (r is Ok == (argon2_accepts(
            encode_utf8(passphrase->0@),
            b64_standard_decoded(settings.sync_salt_b64->0@)->0,
        ) && seal_accepts(plaintext@))),
{
    let salt = salt_from_settings(settings)?;
    let ghost given = passphrase;
    let pass = match passphrase {
        Some(p) => p,
        None => return Err(String::from_str("sync passphrase not set")),
    };
    assert(given == Some(pass));
    assert(Some(salt@) == b64_standard_decoded(settings.sync_salt_b64->0@));
    let r = encrypt(pass.as_str(), salt.as_slice(), plaintext);
    proof {
        if r is Ok {
            let n = choose|n: Seq<u8>|
                n.len() == 12 && #[trigger] is_sealed_file(
                    r->Ok_0,
                    encode_utf8(pass@),
                    salt@,
                    n,
                    plaintext@,
                );
            assert(is_sealed_file(r->Ok_0, encode_utf8(pass@), salt@, n, plaintext@));
            assert(n.len() == 12);
            assert(encode_utf8(given->0@) == encode_utf8(pass@));
            assert(b64_standard_decoded(settings.sync_salt_b64->0@)->0 == salt@);
            assert(is_sealed_file(r->Ok_0, encode_utf8(given->0@), b64_standard_decoded(settings.sync_salt_b64->0@)->0, n, plaintext@));
        }
    }
    r
}

/// Open an imported sync file; a passphrase must be set.
pub fn open_payload(passphrase: Option<String>, enc: &SyncEncryptedFile) -> (r: Result<
    Vec<u8>,
    String,
>)
    ensures
        passphrase is None ==> r is Err && r->Err_0@ == "sync passphrase not set"@,
        passphrase is Some ==> (r is Ok) == (opened_file(
            encode_utf8(passphrase->0@),
            *enc,
        ) is Some),
        r is Ok ==> passphrase is Some && Some(r->Ok_0@) == opened_file(
            encode_utf8(passphrase->0@),
            *enc,
        ),
{
    match passphrase {
        Some(p) => decrypt(p.as_str(), enc),
        None => Err(String::from_str("sync passphrase not set")),
    }
}

} // verus!
