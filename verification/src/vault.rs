//! The encrypted store: the master key, sealing and opening of secrets, and
//! the conversion of connections to and from their stored form.
use vstd::prelude::*;
use vstd::utf8::{decode_utf8, encode_utf8, valid_utf8};

use aes_gcm::aead::{Aead, KeyInit};
use base64::Engine;
use rand_core::TryRngCore;

use crate::model::{
    AuthConfig, AuthView, ConnectionConfig, ConnectionView, EncryptedBlob, MasterConfig,
    StoreFile, StoredAuthConfig, StoredConnection, copy_history, copy_opt_string, opt_view,
};
use crate::text::same_text;

verus! {

broadcast use {vstd::utf8::encode_utf8_decode_utf8, vstd::utf8::encode_utf8_valid_utf8};

/// Why a store operation did not succeed.
#[derive(Debug, Clone, Copy, PartialEq, Eq, Structural)]
pub enum VaultError {
    /// The nonce of a secret is not valid base64.
    NonceEncoding,
    /// The ciphertext of a secret is not valid base64.
    CiphertextEncoding,
    /// The ciphertext does not open under the key (wrong key or damaged).
    DecryptFailed,
    /// The opened secret is not UTF-8.
    InvalidUtf8,
    /// The nonce of a secret has the wrong length.
    MalformedNonce,
    /// The system's random source failed.
    RandomUnavailable,
    /// The plaintext is too long to be sealed.
    EncryptFailed,
    /// The salt of the master key is not valid base64.
    SaltEncoding,
    /// The master password does not open the check value.
    WrongMasterPassword,
    /// A new master password and its confirmation differ.
    PasswordsDoNotMatch,
    /// A new master password is empty.
    MasterPasswordEmpty,
    /// The current master password was left empty.
    CurrentPasswordRequired,
    /// The new master password was left empty.
    NewPasswordRequired,
    /// The new master password and its confirmation differ.
    ConfirmationMismatch,
    /// The current master password could not be checked against the store.
    CurrentPasswordUnverified,
    /// The current master password opens the check value to something else.
    CurrentPasswordIncorrect,
}

/// The words that report an error of the store.
pub open spec fn vault_error_text(e: VaultError) -> Seq<char> {
    match e {
        VaultError::NonceEncoding => "decode nonce"@,
        VaultError::CiphertextEncoding => "decode ciphertext"@,
        VaultError::DecryptFailed => "decrypt failed"@,
        VaultError::InvalidUtf8 => "decode utf8"@,
        VaultError::MalformedNonce => "malformed nonce"@,
        VaultError::RandomUnavailable => "random source failed"@,
        VaultError::EncryptFailed => "encrypt failed"@,
        VaultError::SaltEncoding => "decode salt"@,
        VaultError::WrongMasterPassword => "Invalid master password."@,
        VaultError::PasswordsDoNotMatch => "Passwords do not match."@,
        VaultError::MasterPasswordEmpty => "Master password cannot be empty."@,
        VaultError::CurrentPasswordRequired => "Current password is required"@,
        VaultError::NewPasswordRequired => "New password is required"@,
        VaultError::ConfirmationMismatch => "New password confirmation does not match"@,
        VaultError::CurrentPasswordUnverified => "verify current password"@,
        VaultError::CurrentPasswordIncorrect => "Current master password incorrect"@,
    }
}

impl VaultError {
    /// The words that report this error.
    pub fn message(&self) -> (r: &'static str)
        ensures
            r@ == vault_error_text(*self),
    {
        match self {
            VaultError::NonceEncoding => "decode nonce",
            VaultError::CiphertextEncoding => "decode ciphertext",
            VaultError::DecryptFailed => "decrypt failed",
            VaultError::InvalidUtf8 => "decode utf8",
            VaultError::MalformedNonce => "malformed nonce",
            VaultError::RandomUnavailable => "random source failed",
            VaultError::EncryptFailed => "encrypt failed",
            VaultError::SaltEncoding => "decode salt",
            VaultError::WrongMasterPassword => "Invalid master password.",
            VaultError::PasswordsDoNotMatch => "Passwords do not match.",
            VaultError::MasterPasswordEmpty => "Master password cannot be empty.",
            VaultError::CurrentPasswordRequired => "Current password is required",
            VaultError::NewPasswordRequired => "New password is required",
            VaultError::ConfirmationMismatch => "New password confirmation does not match",
            VaultError::CurrentPasswordUnverified => "verify current password",
            VaultError::CurrentPasswordIncorrect => "Current master password incorrect",
        }
    }
}

/// Number of PBKDF2 rounds for the master key.
pub const KEY_ROUNDS: u32 = 100000;

/// Length of the master key in bytes.
pub const KEY_LEN: usize = 32;

/// Length of the salt of the master key in bytes.
pub const SALT_LEN: usize = 16;

/// Length of a nonce in bytes.
pub const NONCE_LEN: usize = 12;

/// Length of the authentication tag that AES-GCM appends, in bytes.
pub const TAG_LEN: usize = 16;

/// Longest plaintext that AES-GCM seals, in bytes.
pub const MAX_PLAINTEXT: u64 = 0x10_0000_0000;

/// The text sealed under the master key to check a master password.
pub const MASTER_CHECK: &'static str = "ssh-client-check";

/// The standard base64 encoding of `bytes`.
pub uninterp spec fn base64_encoded(bytes: Seq<u8>) -> Seq<char>;

/// The bytes that `text` decodes to in standard base64, if it is valid.
pub uninterp spec fn base64_decoded(text: Seq<char>) -> Option<Seq<u8>>;

/// The PBKDF2-HMAC-SHA256 output of `len` bytes.
pub uninterp spec fn pbkdf2_hmac_sha256(password: Seq<u8>, salt: Seq<u8>, rounds: u32, len: nat) -> Seq<u8>;

/// The AES-256-GCM ciphertext (with its tag) of `plaintext`, without
/// associated data.
pub uninterp spec fn aes256_gcm_sealed(key: Seq<u8>, nonce: Seq<u8>, plaintext: Seq<u8>) -> Seq<u8>;

/// The plaintext that `ciphertext` opens to under AES-256-GCM, if its tag
/// checks.
pub uninterp spec fn aes256_gcm_opened(key: Seq<u8>, nonce: Seq<u8>, ciphertext: Seq<u8>) -> Option<Seq<u8>>;

/// Standard base64 encoding.
///
/// Wraps `base64::engine::general_purpose::STANDARD.encode`. Besides naming
/// the result, the contract claims that decoding it gives the input back,
/// which the crate documents as the purpose of the pair.
#[verifier::external_body]
fn base64_encode(bytes: &[u8]) -> (r: String)
    ensures
        r@ == base64_encoded(bytes@),
        base64_decoded(r@) == Some(bytes@),
{
    base64::engine::general_purpose::STANDARD.encode(bytes)
}

/// Standard base64 decoding.
///
/// Wraps `base64::engine::general_purpose::STANDARD.decode`; the contract
/// names its result and nothing more.
#[verifier::external_body]
fn base64_decode(text: &str) -> (r: Option<Vec<u8>>)
    ensures
        match r {
            Some(b) => base64_decoded(text@) == Some(b@),
            None => base64_decoded(text@) is None,
        },
{
    base64::engine::general_purpose::STANDARD.decode(text).ok()
}

/// Fills `out` with the PBKDF2-HMAC-SHA256 output for its length.
///
/// Wraps `pbkdf2::pbkdf2_hmac::<sha2::Sha256>`, which writes the derived key
/// into the slice it is given and keeps its length.
#[verifier::external_body]
fn pbkdf2_sha256_fill(password: &[u8], salt: &[u8], rounds: u32, out: &mut Vec<u8>)
    ensures
        final(out)@ == pbkdf2_hmac_sha256(password@, salt@, rounds, old(out)@.len()),
        final(out)@.len() == old(out)@.len(),
{
    pbkdf2::pbkdf2_hmac::<sha2::Sha256>(password, salt, rounds, out.as_mut_slice())
}

/// Fills `buf` with bytes from the operating system's random source;
/// false where the source failed.
///
/// Wraps `rand_core::OsRng::try_fill_bytes`. The bytes are random, so the
/// contract states only that the length is kept.
#[verifier::external_body]
fn fill_random(buf: &mut Vec<u8>) -> (ok: bool)
    ensures
        final(buf)@.len() == old(buf)@.len(),
{
    rand_core::OsRng.try_fill_bytes(buf.as_mut_slice()).is_ok()
}

/// AES-256-GCM sealing without associated data.
///
/// Wraps `Aes256Gcm::new` and `Aead::encrypt`. The source refuses a
/// plaintext longer than `MAX_PLAINTEXT` and seals any other; the contract
/// names the ciphertext, claims that it opens to the plaintext under the
/// same key and nonce, which is what an AEAD promises, and that it is the
/// plaintext's length plus the 16-byte tag that `Aead::encrypt` appends.
#[verifier::external_body]
fn aes256_gcm_encrypt(key: &[u8], nonce: &[u8], plaintext: &[u8]) -> (r: Option<Vec<u8>>)
    requires
        key@.len() == KEY_LEN,
        nonce@.len() == NONCE_LEN,
    ensures
        r is Some <==> plaintext@.len() <= MAX_PLAINTEXT,
        r matches Some(c) ==> c@ == aes256_gcm_sealed(key@, nonce@, plaintext@),
        r matches Some(c) ==> aes256_gcm_opened(key@, nonce@, c@) == Some(plaintext@),
        r matches Some(c) ==> c@.len() == plaintext@.len() + TAG_LEN,
{
    let cipher = aes_gcm::Aes256Gcm::new(aes_gcm::Key::<aes_gcm::Aes256Gcm>::from_slice(key));
    cipher.encrypt(aes_gcm::Nonce::from_slice(nonce), plaintext).ok()
}

/// AES-256-GCM opening without associated data.
///
/// Wraps `Aes256Gcm::new` and `Aead::decrypt`; the contract names the result.
#[verifier::external_body]
fn aes256_gcm_decrypt(key: &[u8], nonce: &[u8], ciphertext: &[u8]) -> (r: Option<Vec<u8>>)
    requires
        key@.len() == KEY_LEN,
        nonce@.len() == NONCE_LEN,
    ensures
        match r {
            Some(p) => aes256_gcm_opened(key@, nonce@, ciphertext@) == Some(p@),
            None => aes256_gcm_opened(key@, nonce@, ciphertext@) is None,
        },
{
    let cipher = aes_gcm::Aes256Gcm::new(aes_gcm::Key::<aes_gcm::Aes256Gcm>::from_slice(key));
    cipher.decrypt(aes_gcm::Nonce::from_slice(nonce), ciphertext).ok()
}

/// The text that `bytes` hold, where they are UTF-8.
///
/// Wraps `String::from_utf8`, which documents that it succeeds exactly on
/// valid UTF-8 and then keeps the bytes.
#[verifier::external_body]
fn utf8_to_string(bytes: Vec<u8>) -> (r: Option<String>)
    ensures
        match r {
            Some(s) => valid_utf8(bytes@) && s@ == decode_utf8(bytes@),
            None => !valid_utf8(bytes@),
        },
{
    String::from_utf8(bytes).ok()
}

/// The master key for a password and salt.
pub open spec fn master_key_of(password: Seq<char>, salt: Seq<u8>) -> Seq<u8> {
    pbkdf2_hmac_sha256(encode_utf8(password), salt, KEY_ROUNDS, KEY_LEN as nat)
}

/// Derives the 32-byte master key from a password and salt with
/// PBKDF2-HMAC-SHA256 and 100000 rounds.
pub fn derive_key(password: &str, salt: &[u8]) -> (r: Vec<u8>)
    ensures
        r@ == master_key_of(password@, salt@),
        r@.len() == KEY_LEN,
{
    let mut key: Vec<u8> = vec![0u8; KEY_LEN];
    pbkdf2_sha256_fill(password.as_bytes(), salt, KEY_ROUNDS, &mut key);
    key
}

/// `blob` holds `plaintext` sealed under `key` with the given nonce: the
/// base64 of the nonce and the base64 of the AES-256-GCM ciphertext of the
/// plaintext's UTF-8 bytes.
pub open spec fn sealed_with(blob: EncryptedBlob, key: Seq<u8>, nonce: Seq<u8>, plaintext: Seq<char>) -> bool {
    &&& blob.nonce@ == base64_encoded(nonce)
    &&& blob.ciphertext@ == base64_encoded(aes256_gcm_sealed(key, nonce, encode_utf8(plaintext)))
}

/// `blob` holds `plaintext` sealed under `key` with some 12-byte nonce; the
/// ciphertext is 16 bytes longer than the plaintext's UTF-8 bytes.
pub open spec fn seals(blob: EncryptedBlob, key: Seq<u8>, plaintext: Seq<char>) -> bool {
    exists|nonce: Seq<u8>|
        {
            &&& nonce.len() == NONCE_LEN
            &&& #[trigger] base64_decoded(blob.nonce@) == Some(nonce)
            &&& blob.nonce@ == base64_encoded(nonce)
            &&& blob.ciphertext@ == base64_encoded(
                aes256_gcm_sealed(key, nonce, encode_utf8(plaintext)),
            )
            &&& base64_decoded(blob.ciphertext@) == Some(
                aes256_gcm_sealed(key, nonce, encode_utf8(plaintext)),
            )
            &&& aes256_gcm_opened(key, nonce, aes256_gcm_sealed(key, nonce, encode_utf8(plaintext)))
                == Some(encode_utf8(plaintext))
            &&& aes256_gcm_sealed(key, nonce, encode_utf8(plaintext)).len() == encode_utf8(
                plaintext,
            ).len() + TAG_LEN
        }
}

/// Seals a secret under the master key with the given nonce: it succeeds
/// exactly where the plaintext's UTF-8 bytes are no longer than
/// `MAX_PLAINTEXT`.
pub fn seal_with_nonce(plaintext: &str, key: &[u8], nonce: &[u8]) -> (r: Result<EncryptedBlob, VaultError>)
    requires
        key@.len() == KEY_LEN,
        nonce@.len() == NONCE_LEN,
    ensures
        encode_utf8(plaintext@).len() <= MAX_PLAINTEXT ==> (r matches Ok(blob) && sealed_with(
            blob,
            key@,
            nonce@,
            plaintext@,
        ) && seals(blob, key@, plaintext@)),
        encode_utf8(plaintext@).len() > MAX_PLAINTEXT ==> r == Err::<EncryptedBlob, VaultError>(
            VaultError::EncryptFailed,
        ),
{
    let bytes = plaintext.as_bytes();
    match aes256_gcm_encrypt(key, nonce, bytes) {
        Some(ciphertext) => {
            let blob = EncryptedBlob {
                nonce: base64_encode(nonce),
                ciphertext: base64_encode(ciphertext.as_slice()),
            };
            assert(base64_decoded(blob.nonce@) == Some(nonce@));
            Ok(blob)
        },
        None => Err(VaultError::EncryptFailed),
    }
}

/// Seals a secret under the master key with a fresh random nonce.
pub fn encrypt_string(plaintext: &str, key: &[u8]) -> (r: Result<EncryptedBlob, VaultError>)
    requires
        key@.len() == KEY_LEN,
    ensures
        match r {
            Ok(blob) => seals(blob, key@, plaintext@),
            Err(e) => e == VaultError::RandomUnavailable || (e == VaultError::EncryptFailed
                && encode_utf8(plaintext@).len() > MAX_PLAINTEXT),
        },
        encode_utf8(plaintext@).len() > MAX_PLAINTEXT ==> r is Err,
{
    let mut nonce: Vec<u8> = vec![0u8; NONCE_LEN];
    if !fill_random(&mut nonce) {
        return Err(VaultError::RandomUnavailable);
    }
    seal_with_nonce(plaintext, key, nonce.as_slice())
}

/// The UTF-8 encoding of a text takes at most four bytes per character.
pub proof fn lemma_utf8_len_bound(chars: Seq<char>)
    ensures
        encode_utf8(chars).len() <= 4 * chars.len(),
    decreases chars.len(),
{
    if chars.len() > 0 {
        lemma_utf8_len_bound(chars.drop_first());
    }
}

/// Where the nonce of `blob` decodes, and so does its ciphertext, the nonce
/// has 12 bytes. (Opening a secret whose nonce breaks this is not defined.)
pub open spec fn nonce_fits(blob: EncryptedBlob) -> bool {
    match base64_decoded(blob.nonce@) {
        Some(nonce) => match base64_decoded(blob.ciphertext@) {
            Some(_) => nonce.len() == NONCE_LEN,
            None => true,
        },
        None => true,
    }
}

/// What opening a secret gives: the decoded nonce and ciphertext, opened
/// under the key, read as UTF-8; or the first step that failed.
pub open spec fn opened_text(blob: EncryptedBlob, key: Seq<u8>) -> Result<Seq<char>, VaultError> {
    match base64_decoded(blob.nonce@) {
        None => Err(VaultError::NonceEncoding),
        Some(nonce) => match base64_decoded(blob.ciphertext@) {
            None => Err(VaultError::CiphertextEncoding),
            Some(c) => match aes256_gcm_opened(key, nonce, c) {
                None => Err(VaultError::DecryptFailed),
                Some(p) => if valid_utf8(p) {
                    Ok(decode_utf8(p))
                } else {
                    Err(VaultError::InvalidUtf8)
                },
            },
        },
    }
}

/// Opens a secret sealed under the master key.
pub fn decrypt_string(blob: &EncryptedBlob, key: &[u8]) -> (r: Result<String, VaultError>)
    requires
        key@.len() == KEY_LEN,
        nonce_fits(*blob),
    ensures
        match r {
            Ok(s) => opened_text(*blob, key@) == Ok::<Seq<char>, VaultError>(s@),
            Err(e) => opened_text(*blob, key@) == Err::<Seq<char>, VaultError>(e),
        },
{
    let nonce = match base64_decode(blob.nonce.as_str()) {
        Some(n) => n,
        None => return Err(VaultError::NonceEncoding),
    };
    let ciphertext = match base64_decode(blob.ciphertext.as_str()) {
        Some(c) => c,
        None => return Err(VaultError::CiphertextEncoding),
    };
    let plain = match aes256_gcm_decrypt(key, nonce.as_slice(), ciphertext.as_slice()) {
        Some(p) => p,
        None => return Err(VaultError::DecryptFailed),
    };
    match utf8_to_string(plain) {
        Some(s) => Ok(s),
        None => Err(VaultError::InvalidUtf8),
    }
}

/// Whether the nonce of `blob` fits (see `nonce_fits`).
pub fn blob_nonce_fits(blob: &EncryptedBlob) -> (r: bool)
    ensures
        r == nonce_fits(*blob),
{
    match base64_decode(blob.nonce.as_str()) {
        Some(nonce) => match base64_decode(blob.ciphertext.as_str()) {
            Some(_) => nonce.len() == NONCE_LEN,
            None => true,
        },
        None => true,
    }
}

/// Opens a secret, answering `MalformedNonce` where its nonce does not fit.
pub fn decrypt_string_checked(blob: &EncryptedBlob, key: &[u8]) -> (r: Result<String, VaultError>)
    requires
        key@.len() == KEY_LEN,
    ensures
        !nonce_fits(*blob) ==> r == Err::<String, VaultError>(VaultError::MalformedNonce),
        nonce_fits(*blob) ==> match r {
            Ok(s) => opened_text(*blob, key@) == Ok::<Seq<char>, VaultError>(s@),
            Err(e) => opened_text(*blob, key@) == Err::<Seq<char>, VaultError>(e),
        },
{
    if !blob_nonce_fits(blob) {
        return Err(VaultError::MalformedNonce);
    }
    decrypt_string(blob, key)
}

/// A secret sealed under a key opens under that key to the same text.
pub proof fn lemma_open_after_seal(blob: EncryptedBlob, key: Seq<u8>, plaintext: Seq<char>)
    requires
        seals(blob, key, plaintext),
    ensures
        nonce_fits(blob),
        opened_text(blob, key) == Ok::<Seq<char>, VaultError>(plaintext),
{
    let nonce = choose|nonce: Seq<u8>|
        {
            &&& nonce.len() == NONCE_LEN
            &&& #[trigger] base64_decoded(blob.nonce@) == Some(nonce)
            &&& blob.nonce@ == base64_encoded(nonce)
            &&& blob.ciphertext@ == base64_encoded(
                aes256_gcm_sealed(key, nonce, encode_utf8(plaintext)),
            )
            &&& base64_decoded(blob.ciphertext@) == Some(
                aes256_gcm_sealed(key, nonce, encode_utf8(plaintext)),
            )
            &&& aes256_gcm_opened(key, nonce, aes256_gcm_sealed(key, nonce, encode_utf8(plaintext)))
                == Some(encode_utf8(plaintext))
        };
    assert(decode_utf8(encode_utf8(plaintext)) == plaintext);
    assert(valid_utf8(encode_utf8(plaintext)));
}

/// `stored` is `conn` with its secrets sealed under `key`: every other
/// field is the same.
pub open spec fn stored_seals(stored: StoredConnection, conn: ConnectionView, key: Seq<u8>) -> bool {
    &&& stored.name@ == conn.name
    &&& stored.user@ == conn.user
    &&& stored.host@ == conn.host
    &&& stored.history@ == conn.history
    &&& opt_view(stored.last_remote_dir) == conn.last_remote_dir
    &&& match (stored.auth, conn.auth) {
        (StoredAuthConfig::Password { password: b }, AuthView::Password { password: p }) => seals(
            b,
            key,
            p,
        ),
        (
            StoredAuthConfig::PrivateKey { path: sp, password: None },
            AuthView::PrivateKey { path: cp, password: None },
        ) => sp@ == cp,
        (
            StoredAuthConfig::PrivateKey { path: sp, password: Some(b) },
            AuthView::PrivateKey { path: cp, password: Some(p) },
        ) => sp@ == cp && seals(b, key, p),
        _ => false,
    }
}

/// Every sealed secret of a stored connection has a nonce that fits.
pub open spec fn stored_nonces_fit(stored: StoredConnection) -> bool {
    match stored.auth {
        StoredAuthConfig::Password { password } => nonce_fits(password),
        StoredAuthConfig::PrivateKey { password: Some(b), .. } => nonce_fits(b),
        StoredAuthConfig::PrivateKey { password: None, .. } => true,
    }
}

/// What opening a stored connection gives: the connection with its secrets
/// opened, or the failure of opening one.
pub open spec fn opened_connection(stored: StoredConnection, key: Seq<u8>) -> Result<ConnectionView, VaultError> {
    let auth: Result<AuthView, VaultError> = match stored.auth {
        StoredAuthConfig::Password { password } => match opened_text(password, key) {
            Ok(p) => Ok(AuthView::Password { password: p }),
            Err(e) => Err(e),
        },
        StoredAuthConfig::PrivateKey { path, password: None } => Ok(
            AuthView::PrivateKey { path: path@, password: None },
        ),
        StoredAuthConfig::PrivateKey { path, password: Some(b) } => match opened_text(b, key) {
            Ok(p) => Ok(AuthView::PrivateKey { path: path@, password: Some(p) }),
            Err(e) => Err(e),
        },
    };
    match auth {
        Ok(a) => Ok(
            ConnectionView {
                name: stored.name@,
                user: stored.user@,
                host: stored.host@,
                auth: a,
                history: stored.history@,
                last_remote_dir: opt_view(stored.last_remote_dir),
            },
        ),
        Err(e) => Err(e),
    }
}

/// The secret of a connection's authentication: its password, or the
/// passphrase of its key file where it has one.
pub open spec fn secret_of(auth: AuthView) -> Option<Seq<char>> {
    match auth {
        AuthView::Password { password } => Some(password),
        AuthView::PrivateKey { password, .. } => password,
    }
}

/// The connection's secret is too long to be sealed.
pub open spec fn secret_too_long(conn: ConnectionView) -> bool {
    match secret_of(conn.auth) {
        Some(p) => encode_utf8(p).len() > MAX_PLAINTEXT,
        None => false,
    }
}

/// Converts a connection to its stored form, sealing its password under the
/// master key. A key file without passphrase is stored as it is, whatever
/// the key; a secret is sealed with a fresh random nonce.
pub fn encrypt_connection(conn: &ConnectionConfig, key: &[u8]) -> (r: Result<StoredConnection, VaultError>)
    requires
        secret_of(conn@.auth) is Some ==> key@.len() == KEY_LEN,
    ensures
        match r {
            Ok(stored) => stored_seals(stored, conn@, key@),
            Err(e) => secret_of(conn@.auth) is Some && (e == VaultError::RandomUnavailable || (e
                == VaultError::EncryptFailed && secret_too_long(conn@))),
        },
        secret_of(conn@.auth) is None ==> r is Ok,
        secret_too_long(conn@) ==> r is Err,
{
    let auth = match &conn.auth {
        AuthConfig::Password { password } => {
            let blob = encrypt_string(password.as_str(), key)?;
            StoredAuthConfig::Password { password: blob }
        },
        AuthConfig::PrivateKey { path, password } => {
            let sealed = match password {
                Some(pass) => Some(encrypt_string(pass.as_str(), key)?),
                None => None,
            };
            StoredAuthConfig::PrivateKey { path: path.clone(), password: sealed }
        },
    };
    Ok(
        StoredConnection {
            name: conn.name.clone(),
            user: conn.user.clone(),
            host: conn.host.clone(),
            auth,
            history: copy_history(&conn.history),
            last_remote_dir: copy_opt_string(&conn.last_remote_dir),
        },
    )
}

fn open_stored(conn: &StoredConnection, key: &[u8]) -> (r: Result<ConnectionConfig, VaultError>)
    requires
        key@.len() == KEY_LEN,
        stored_nonces_fit(*conn),
    ensures
        match r {
            Ok(c) => opened_connection(*conn, key@) == Ok::<ConnectionView, VaultError>(c@),
            Err(e) => opened_connection(*conn, key@) == Err::<ConnectionView, VaultError>(e),
        },
{
    let auth = match &conn.auth {
        StoredAuthConfig::Password { password } => {
            let p = decrypt_string(password, key)?;
            AuthConfig::Password { password: p }
        },
        StoredAuthConfig::PrivateKey { path, password } => {
            let opened = match password {
                Some(b) => Some(decrypt_string(b, key)?),
                None => None,
            };
            AuthConfig::PrivateKey { path: path.clone(), password: opened }
        },
    };
    Ok(
        ConnectionConfig {
            name: conn.name.clone(),
            user: conn.user.clone(),
            host: conn.host.clone(),
            auth,
            history: copy_history(&conn.history),
            last_remote_dir: copy_opt_string(&conn.last_remote_dir),
        },
    )
}

/// Converts a stored connection back, opening its secrets with the master
/// key.
pub fn decrypt_connection(conn: StoredConnection, key: &[u8]) -> (r: Result<ConnectionConfig, VaultError>)
    requires
        key@.len() == KEY_LEN,
        stored_nonces_fit(conn),
    ensures
        match r {
            Ok(c) => opened_connection(conn, key@) == Ok::<ConnectionView, VaultError>(c@),
            Err(e) => opened_connection(conn, key@) == Err::<ConnectionView, VaultError>(e),
        },
{
    open_stored(&conn, key)
}

/// Whether every nonce of a stored connection fits (see `nonce_fits`).
pub fn stored_connection_nonces_fit(conn: &StoredConnection) -> (r: bool)
    ensures
        r == stored_nonces_fit(*conn),
{
    match &conn.auth {
        StoredAuthConfig::Password { password } => blob_nonce_fits(password),
        StoredAuthConfig::PrivateKey { password: Some(b), .. } => blob_nonce_fits(b),
        StoredAuthConfig::PrivateKey { password: None, .. } => true,
    }
}

/// A connection stored under a key opens under that key to the same
/// connection.
pub proof fn lemma_connection_roundtrip(stored: StoredConnection, conn: ConnectionView, key: Seq<u8>)
    requires
        stored_seals(stored, conn, key),
    ensures
        stored_nonces_fit(stored),
        opened_connection(stored, key) == Ok::<ConnectionView, VaultError>(conn),
{
    match (stored.auth, conn.auth) {
        (StoredAuthConfig::Password { password: b }, AuthView::Password { password: p }) => {
            lemma_open_after_seal(b, key, p);
        },
        (
            StoredAuthConfig::PrivateKey { path: sp, password: Some(b) },
            AuthView::PrivateKey { path: cp, password: Some(p) },
        ) => {
            lemma_open_after_seal(b, key, p);
        },
        _ => {},
    }
}

/// `master` and `key` were made from `password`: the salt decodes, the key
/// is derived from it, and the check value is sealed under the key.
pub open spec fn master_created(master: MasterConfig, key: Seq<u8>, password: Seq<char>) -> bool {
    exists|salt: Seq<u8>|
        {
            &&& salt.len() == SALT_LEN
            &&& #[trigger] base64_decoded(master.salt_b64@) == Some(salt)
            &&& key == master_key_of(password, salt)
            &&& seals(master.check, key, MASTER_CHECK@)
        }
}

/// `master` and `key` were made from `password` with the given salt and
/// nonce: the base64 of the salt, the key derived from them, and the check
/// text sealed under the key with the nonce.
pub open spec fn master_made_with(master: MasterConfig, key: Seq<u8>, password: Seq<char>, salt: Seq<u8>, nonce: Seq<u8>) -> bool {
    &&& master.salt_b64@ == base64_encoded(salt)
    &&& key == master_key_of(password, salt)
    &&& sealed_with(master.check, key, nonce, MASTER_CHECK@)
}

/// Makes a master configuration from a password, a 16-byte salt and a
/// 12-byte nonce; the short check text always seals.
pub fn create_master_with(password: &str, salt: &[u8], nonce: &[u8]) -> (r: (MasterConfig, Vec<u8>))
    requires
        salt@.len() == SALT_LEN,
        nonce@.len() == NONCE_LEN,
    ensures
        master_made_with(r.0, r.1@, password@, salt@, nonce@),
        master_created(r.0, r.1@, password@),
        r.1@.len() == KEY_LEN,
{
    let key = derive_key(password, salt);
    proof {
        reveal_strlit("ssh-client-check");
        lemma_utf8_len_bound(MASTER_CHECK@);
    }
    let check = seal_with_nonce(MASTER_CHECK, key.as_slice(), nonce).unwrap();
    let master = MasterConfig { salt_b64: base64_encode(salt), check };
    assert(base64_decoded(master.salt_b64@) == Some(salt@));
    (master, key)
}

/// Makes a new master configuration from a password: a random salt, the
/// key derived from it, and the check value sealed under the key with a
/// random nonce. It fails only where the random source does.
pub fn create_master_from_password(password: &str) -> (r: Result<(MasterConfig, Vec<u8>), VaultError>)
    ensures
        match r {
            Ok((master, key)) => master_created(master, key@, password@) && key@.len() == KEY_LEN,
            Err(e) => e == VaultError::RandomUnavailable,
        },
{
    let mut salt: Vec<u8> = vec![0u8; SALT_LEN];
    if !fill_random(&mut salt) {
        return Err(VaultError::RandomUnavailable);
    }
    let mut nonce: Vec<u8> = vec![0u8; NONCE_LEN];
    if !fill_random(&mut nonce) {
        return Err(VaultError::RandomUnavailable);
    }
    Ok(create_master_with(password, salt.as_slice(), nonce.as_slice()))
}

/// What a master password opens: the derived key where the check value
/// opens to the check text under it; otherwise why not.
pub open spec fn unlock_outcome(master: MasterConfig, password: Seq<char>) -> Result<Seq<u8>, VaultError> {
    match base64_decoded(master.salt_b64@) {
        None => Err(VaultError::SaltEncoding),
        Some(salt) => {
            let key = master_key_of(password, salt);
            match opened_text(master.check, key) {
                Ok(t) => if t == MASTER_CHECK@ {
                    Ok(key)
                } else {
                    Err(VaultError::WrongMasterPassword)
                },
                Err(_) => Err(VaultError::WrongMasterPassword),
            }
        },
    }
}

/// Checks a master password against the store and gives the master key.
pub fn unlock_master(master: &MasterConfig, password: &str) -> (r: Result<Vec<u8>, VaultError>)
    requires
        nonce_fits(master.check),
    ensures
        match r {
            Ok(key) => unlock_outcome(*master, password@) == Ok::<Seq<u8>, VaultError>(key@)
                && key@.len() == KEY_LEN,
            Err(e) => unlock_outcome(*master, password@) == Err::<Seq<u8>, VaultError>(e),
        },
{
    let salt = match base64_decode(master.salt_b64.as_str()) {
        Some(s) => s,
        None => return Err(VaultError::SaltEncoding),
    };
    let key = derive_key(password, salt.as_slice());
    match decrypt_string(&master.check, key.as_slice()) {
        Ok(check) => {
            if same_text(check.as_str(), MASTER_CHECK) {
                Ok(key)
            } else {
                Err(VaultError::WrongMasterPassword)
            }
        },
        Err(_) => Err(VaultError::WrongMasterPassword),
    }
}

/// The password a master configuration was made from unlocks it, and gives
/// the key made with it.
pub proof fn lemma_unlock_created(master: MasterConfig, key: Seq<u8>, password: Seq<char>)
    requires
        master_created(master, key, password),
    ensures
        nonce_fits(master.check),
        unlock_outcome(master, password) == Ok::<Seq<u8>, VaultError>(key),
{
    let salt = choose|salt: Seq<u8>|
        {
            &&& salt.len() == SALT_LEN
            &&& #[trigger] base64_decoded(master.salt_b64@) == Some(salt)
            &&& key == master_key_of(password, salt)
            &&& seals(master.check, key, MASTER_CHECK@)
        };
    lemma_open_after_seal(master.check, key, MASTER_CHECK@);
}

/// What setting up a new master password answers: the two entries must
/// match and must not be empty.
pub open spec fn new_master_check(password: Seq<char>, confirm: Seq<char>) -> Result<(), VaultError> {
    if password != confirm {
        Err(VaultError::PasswordsDoNotMatch)
    } else if password.len() == 0 {
        Err(VaultError::MasterPasswordEmpty)
    } else {
        Ok(())
    }
}

/// Checks a new master password and its confirmation.
pub fn validate_new_master(password: &str, confirm: &str) -> (r: Result<(), VaultError>)
    ensures
        r == new_master_check(password@, confirm@),
{
    if !same_text(password, confirm) {
        return Err(VaultError::PasswordsDoNotMatch);
    }
    if password.unicode_len() == 0 {
        return Err(VaultError::MasterPasswordEmpty);
    }
    Ok(())
}

/// The views of a list of connections.
pub open spec fn views(conns: Seq<ConnectionConfig>) -> Seq<ConnectionView> {
    conns.map_values(|c: ConnectionConfig| c@)
}

/// What opening the stored connections in order gives: all of them, or
/// the failure of the first that does not open.
pub open spec fn opened_all(stored: Seq<StoredConnection>, key: Seq<u8>) -> Result<Seq<ConnectionView>, VaultError>
    decreases stored.len(),
{
    if stored.len() == 0 {
        Ok(Seq::empty())
    } else {
        match opened_all(stored.drop_last(), key) {
            Err(e) => Err(e),
            Ok(vs) => match opened_connection(stored.last(), key) {
                Ok(v) => Ok(vs.push(v)),
                Err(e) => Err(e),
            },
        }
    }
}

/// Every stored connection's nonces fit.
pub open spec fn all_nonces_fit(stored: Seq<StoredConnection>) -> bool {
    forall|i: int| 0 <= i < stored.len() ==> #[trigger] stored_nonces_fit(stored[i])
}

/// Opens every stored connection in order, stopping at the first failure.
pub fn decrypt_all(stored: &Vec<StoredConnection>, key: &[u8]) -> (r: Result<Vec<ConnectionConfig>, VaultError>)
    requires
        key@.len() == KEY_LEN,
        all_nonces_fit(stored@),
    ensures
        match r {
            Ok(v) => opened_all(stored@, key@) == Ok::<Seq<ConnectionView>, VaultError>(views(v@)),
            Err(e) => opened_all(stored@, key@) == Err::<Seq<ConnectionView>, VaultError>(e),
        },
{
    let mut out: Vec<ConnectionConfig> = Vec::new();
    let mut i: usize = 0;
    assert(stored@.take(0) =~= Seq::<StoredConnection>::empty());
    assert(views(out@) =~= Seq::<ConnectionView>::empty());
    while i < stored.len()
        invariant
            i <= stored.len(),
            key@.len() == KEY_LEN,
            all_nonces_fit(stored@),
            opened_all(stored@.take(i as int), key@) == Ok::<Seq<ConnectionView>, VaultError>(
                views(out@),
            ),
        decreases stored.len() - i,
    {
        assert(stored@.take(i + 1).drop_last() =~= stored@.take(i as int));
        assert(stored@.take(i + 1).last() == stored@[i as int]);
        assert(stored_nonces_fit(stored@[i as int]));
        match open_stored(&stored[i], key) {
            Ok(c) => {
                proof {
                    assert(views(out@.push(c)) =~= views(out@).push(c@));
                }
                out.push(c);
            },
            Err(e) => {
                proof {
                    lemma_opened_all_prefix_error(stored@, key@, i as int, e);
                }
                return Err(e);
            },
        }
        i = i + 1;
    }
    assert(stored@.take(stored.len() as int) =~= stored@);
    Ok(out)
}

proof fn lemma_opened_all_prefix_error(stored: Seq<StoredConnection>, key: Seq<u8>, i: int, e: VaultError)
    requires
        0 <= i < stored.len(),
        opened_all(stored.take(i + 1), key) == Err::<Seq<ConnectionView>, VaultError>(e),
    ensures
        opened_all(stored, key) == Err::<Seq<ConnectionView>, VaultError>(e),
    decreases stored.len() - i,
{
    if i + 1 == stored.len() {
        assert(stored.take(i + 1) =~= stored);
    } else {
        assert(stored.take(i + 2).drop_last() =~= stored.take(i + 1));
        lemma_opened_all_prefix_error(stored, key, i + 1, e);
    }
}

/// Converts every connection to its stored form under the master key.
pub fn encrypt_all(conns: &Vec<ConnectionConfig>, key: &[u8]) -> (r: Result<Vec<StoredConnection>, VaultError>)
    requires
        key@.len() == KEY_LEN,
    ensures
        match r {
            Ok(v) => v@.len() == conns@.len() && forall|i: int|
                0 <= i < v@.len() ==> #[trigger] stored_seals(v@[i], conns@[i]@, key@),
            Err(e) => e == VaultError::RandomUnavailable || (e == VaultError::EncryptFailed
                && exists|i: int| 0 <= i < conns@.len() && #[trigger] secret_too_long(conns@[i]@)),
        },
        (forall|i: int| 0 <= i < conns@.len() ==> #[trigger] secret_of(conns@[i]@.auth) is None)
            ==> r is Ok,
        (exists|i: int| 0 <= i < conns@.len() && #[trigger] secret_too_long(conns@[i]@)) ==> r is Err,
{
    let mut out: Vec<StoredConnection> = Vec::new();
    let mut i: usize = 0;
    while i < conns.len()
        invariant
            i <= conns.len(),
            key@.len() == KEY_LEN,
            out@.len() == i,
            forall|j: int| 0 <= j < i ==> #[trigger] stored_seals(out@[j], conns@[j]@, key@),
            forall|j: int| 0 <= j < i ==> !#[trigger] secret_too_long(conns@[j]@),
        decreases conns.len() - i,
    {
        match encrypt_connection(&conns[i], key) {
            Ok(s) => {
                out.push(s);
            },
            Err(e) => {
                assert(secret_of(conns@[i as int]@.auth) is Some);
                return Err(e);
            },
        }
        i = i + 1;
    }
    Ok(out)
}

/// Connections stored in order under a key open under it, in order, to the
/// same connections.
pub proof fn lemma_all_roundtrip(stored: Seq<StoredConnection>, conns: Seq<ConnectionView>, key: Seq<u8>)
    requires
        stored.len() == conns.len(),
        forall|i: int| 0 <= i < stored.len() ==> #[trigger] stored_seals(stored[i], conns[i], key),
    ensures
        all_nonces_fit(stored),
        opened_all(stored, key) == Ok::<Seq<ConnectionView>, VaultError>(conns),
    decreases stored.len(),
{
    if stored.len() > 0 {
        let n = stored.len() - 1;
        assert forall|i: int| 0 <= i < stored.drop_last().len() implies #[trigger] stored_seals(
            stored.drop_last()[i],
            conns.drop_last()[i],
            key,
        ) by {
            assert(stored_seals(stored[i], conns[i], key));
        }
        lemma_all_roundtrip(stored.drop_last(), conns.drop_last(), key);
        assert(stored_seals(stored[n], conns[n], key));
        lemma_connection_roundtrip(stored[n], conns[n], key);
        assert(conns.drop_last().push(conns[n]) =~= conns);
        assert forall|i: int| 0 <= i < stored.len() implies #[trigger] stored_nonces_fit(
            stored[i],
        ) by {
            if i < n {
                assert(stored_nonces_fit(stored.drop_last()[i]));
            }
        }
    } else {
        assert(conns =~= Seq::<ConnectionView>::empty());
    }
}

/// What the client holds once the store is open.
pub struct LoadedStore {
    pub master: MasterConfig,
    pub key: Vec<u8>,
    pub connections: Vec<ConnectionConfig>,
    pub last_local_dir: Option<String>,
}

/// Every nonce in a store file fits.
pub open spec fn store_nonces_fit(store: StoreFile) -> bool {
    nonce_fits(store.master.check) && all_nonces_fit(store.connections@)
}

/// What opening a store file with a master password gives: the key and the
/// connections, or the first failure.
pub open spec fn open_store_outcome(store: StoreFile, password: Seq<char>) -> Result<(Seq<u8>, Seq<ConnectionView>), VaultError> {
    match unlock_outcome(store.master, password) {
        Err(e) => Err(e),
        Ok(key) => match opened_all(store.connections@, key) {
            Err(e) => Err(e),
            Ok(conns) => Ok((key, conns)),
        },
    }
}

/// Opens the store: where a store file exists, the master password must
/// open it and every connection is opened; where none exists, a new master
/// configuration is made from the password and its confirmation, with no
/// connections.
pub fn load_or_init_store(existing: Option<StoreFile>, password: &str, confirm: &str) -> (r: Result<LoadedStore, VaultError>)
    requires
        existing matches Some(store) ==> store_nonces_fit(store),
    ensures
        match existing {
            Some(store) => match r {
                Ok(loaded) => {
                    &&& open_store_outcome(store, password@) == Ok::<
                        (Seq<u8>, Seq<ConnectionView>),
                        VaultError,
                    >((loaded.key@, views(loaded.connections@)))
                    &&& loaded.master == store.master
                    &&& loaded.last_local_dir == store.last_local_dir
                },
                Err(e) => open_store_outcome(store, password@) == Err::<
                    (Seq<u8>, Seq<ConnectionView>),
                    VaultError,
                >(e),
            },
            None => match new_master_check(password@, confirm@) {
                Err(e) => r == Err::<LoadedStore, VaultError>(e),
                Ok(_) => match r {
                    Ok(loaded) => {
                        &&& master_created(loaded.master, loaded.key@, password@)
                        &&& unlock_outcome(loaded.master, password@) == Ok::<Seq<u8>, VaultError>(
                            loaded.key@,
                        )
                        &&& loaded.key@.len() == KEY_LEN
                        &&& loaded.connections@.len() == 0
                        &&& loaded.last_local_dir is None
                    },
                    Err(e) => e == VaultError::RandomUnavailable,
                },
            },
        },
{
    match existing {
        Some(store) => {
            let key = unlock_master(&store.master, password)?;
            let connections = decrypt_all(&store.connections, key.as_slice())?;
            Ok(
                LoadedStore {
                    master: store.master,
                    key,
                    connections,
                    last_local_dir: store.last_local_dir,
                },
            )
        },
        None => {
            validate_new_master(password, confirm)?;
            let (master, key) = create_master_from_password(password)?;
            proof {
                lemma_unlock_created(master, key@, password@);
            }
            Ok(LoadedStore { master, key, connections: Vec::new(), last_local_dir: None })
        },
    }
}

/// Whether every nonce in a store file fits (see `nonce_fits`).
pub fn store_file_nonces_fit(store: &StoreFile) -> (r: bool)
    ensures
        r == store_nonces_fit(*store),
{
    if !blob_nonce_fits(&store.master.check) {
        return false;
    }
    let mut i: usize = 0;
    while i < store.connections.len()
        invariant
            i <= store.connections.len(),
            forall|j: int| 0 <= j < i ==> #[trigger] stored_nonces_fit(store.connections@[j]),
        decreases store.connections.len() - i,
    {
        if !stored_connection_nonces_fit(&store.connections[i]) {
            return false;
        }
        i = i + 1;
    }
    true
}

/// `store` holds `conns` sealed under `key`, with the given master
/// configuration and last local directory.
pub open spec fn store_holds(store: StoreFile, master: MasterConfig, key: Seq<u8>, conns: Seq<ConnectionView>, last_local_dir: Option<Seq<char>>) -> bool {
    &&& store.master == master
    &&& opt_view(store.last_local_dir) == last_local_dir
    &&& store.connections@.len() == conns.len()
    &&& forall|i: int|
        0 <= i < conns.len() ==> #[trigger] stored_seals(store.connections@[i], conns[i], key)
}

/// The store file for the given state: the master configuration, every
/// connection sealed under the master key, and the last local directory.
pub fn store_file_for(master: &MasterConfig, key: &[u8], connections: &Vec<ConnectionConfig>, last_local_dir: &Option<String>) -> (r: Result<StoreFile, VaultError>)
    requires
        key@.len() == KEY_LEN,
    ensures
        match r {
            Ok(store) => store_holds(store, *master, key@, views(connections@), opt_view(*last_local_dir)),
            Err(e) => e == VaultError::RandomUnavailable || (e == VaultError::EncryptFailed
                && exists|i: int| 0 <= i < connections@.len() && #[trigger] secret_too_long(connections@[i]@)),
        },
        (forall|i: int| 0 <= i < connections@.len() ==> #[trigger] secret_of(connections@[i]@.auth) is None)
            ==> r is Ok,
        (exists|i: int| 0 <= i < connections@.len() && #[trigger] secret_too_long(connections@[i]@)) ==> r is Err,
{
    let stored = encrypt_all(connections, key)?;
    let master_copy = MasterConfig {
        salt_b64: master.salt_b64.clone(),
        check: EncryptedBlob {
            nonce: master.check.nonce.clone(),
            ciphertext: master.check.ciphertext.clone(),
        },
    };
    let store = StoreFile {
        master: master_copy,
        connections: stored,
        last_local_dir: copy_opt_string(last_local_dir),
    };
    assert forall|i: int| 0 <= i < connections@.len() implies #[trigger] stored_seals(
        store.connections@[i],
        views(connections@)[i],
        key@,
    ) by {
        assert(stored_seals(store.connections@[i], connections@[i]@, key@));
    }
    Ok(store)
}

/// A store written with a master configuration made from a password opens
/// with that password and gives back the key and every connection written.
pub proof fn lemma_store_roundtrip(store: StoreFile, master: MasterConfig, key: Seq<u8>, password: Seq<char>, conns: Seq<ConnectionView>, last_local_dir: Option<Seq<char>>)
    requires
        master_created(master, key, password),
        store_holds(store, master, key, conns, last_local_dir),
    ensures
        store_nonces_fit(store),
        open_store_outcome(store, password) == Ok::<(Seq<u8>, Seq<ConnectionView>), VaultError>(
            (key, conns),
        ),
{
    lemma_unlock_created(master, key, password);
    lemma_all_roundtrip(store.connections@, conns, key);
}

/// What a change of master password answers before a new configuration is
/// made: the checks of the form, then the check of the current password.
pub open spec fn change_check(master: MasterConfig, current: Seq<char>, new_password: Seq<char>, confirm: Seq<char>) -> Result<(), VaultError> {
    if current.len() == 0 {
        Err(VaultError::CurrentPasswordRequired)
    } else if new_password.len() == 0 {
        Err(VaultError::NewPasswordRequired)
    } else if new_password != confirm {
        Err(VaultError::ConfirmationMismatch)
    } else {
        match base64_decoded(master.salt_b64@) {
            None => Err(VaultError::SaltEncoding),
            Some(salt) => match opened_text(master.check, master_key_of(current, salt)) {
                Err(_) => Err(VaultError::CurrentPasswordUnverified),
                Ok(t) => if t == MASTER_CHECK@ {
                    Ok(())
                } else {
                    Err(VaultError::CurrentPasswordIncorrect)
                },
            },
        }
    }
}

/// Changes the master password: checks the form and the current password,
/// makes a new master configuration from the new password, and seals every
/// connection under the new key. The caller writes the result.
pub fn change_master_password(master: &MasterConfig, connections: &Vec<ConnectionConfig>, current: &str, new_password: &str, confirm: &str) -> (r: Result<(MasterConfig, Vec<u8>, Vec<StoredConnection>), VaultError>)
    requires
        nonce_fits(master.check),
    ensures
        match change_check(*master, current@, new_password@, confirm@) {
            Err(e) => r == Err::<(MasterConfig, Vec<u8>, Vec<StoredConnection>), VaultError>(e),
            Ok(_) => match r {
                Ok((m, k, stored)) => {
                    &&& master_created(m, k@, new_password@)
                    &&& k@.len() == KEY_LEN
                    &&& stored@.len() == connections@.len()
                    &&& forall|i: int|
                        0 <= i < stored@.len() ==> #[trigger] stored_seals(
                            stored@[i],
                            connections@[i]@,
                            k@,
                        )
                },
                Err(e) => e == VaultError::RandomUnavailable || (e == VaultError::EncryptFailed
                    && exists|i: int|
                    0 <= i < connections@.len() && #[trigger] secret_too_long(connections@[i]@)),
            },
        },
        change_check(*master, current@, new_password@, confirm@) is Ok && (exists|i: int|
            0 <= i < connections@.len() && #[trigger] secret_too_long(connections@[i]@)) ==> r is Err,
{
    if current.unicode_len() == 0 {
        return Err(VaultError::CurrentPasswordRequired);
    }
    if new_password.unicode_len() == 0 {
        return Err(VaultError::NewPasswordRequired);
    }
    if !same_text(new_password, confirm) {
        return Err(VaultError::ConfirmationMismatch);
    }
    let salt = match base64_decode(master.salt_b64.as_str()) {
        Some(s) => s,
        None => return Err(VaultError::SaltEncoding),
    };
    let current_key = derive_key(current, salt.as_slice());
    let check = match decrypt_string(&master.check, current_key.as_slice()) {
        Ok(c) => c,
        Err(_) => return Err(VaultError::CurrentPasswordUnverified),
    };
    if !same_text(check.as_str(), MASTER_CHECK) {
        return Err(VaultError::CurrentPasswordIncorrect);
    }
    let (new_master, new_key) = create_master_from_password(new_password)?;
    let stored = encrypt_all(connections, new_key.as_slice())?;
    Ok((new_master, new_key, stored))
}

/// Opens the store as `load_or_init_store` does, after checking that every
/// nonce in an existing store file fits; one that does not is reported.
pub fn open_store(existing: Option<StoreFile>, password: &str, confirm: &str) -> (r: Result<LoadedStore, VaultError>)
    ensures
        match existing {
            Some(store) => if !store_nonces_fit(store) {
                r == Err::<LoadedStore, VaultError>(VaultError::MalformedNonce)
            } else {
                match r {
                    Ok(loaded) => {
                        &&& open_store_outcome(store, password@) == Ok::<
                            (Seq<u8>, Seq<ConnectionView>),
                            VaultError,
                        >((loaded.key@, views(loaded.connections@)))
                        &&& loaded.master == store.master
                        &&& loaded.last_local_dir == store.last_local_dir
                    },
                    Err(e) => open_store_outcome(store, password@) == Err::<
                        (Seq<u8>, Seq<ConnectionView>),
                        VaultError,
                    >(e),
                }
            },
            None => match new_master_check(password@, confirm@) {
                Err(e) => r == Err::<LoadedStore, VaultError>(e),
                Ok(_) => match r {
                    Ok(loaded) => {
                        &&& master_created(loaded.master, loaded.key@, password@)
                        &&& unlock_outcome(loaded.master, password@) == Ok::<Seq<u8>, VaultError>(
                            loaded.key@,
                        )
                        &&& loaded.key@.len() == KEY_LEN
                        &&& loaded.connections@.len() == 0
                        &&& loaded.last_local_dir is None
                    },
                    Err(e) => e == VaultError::RandomUnavailable,
                },
            },
        },
{
    if let Some(store) = &existing {
        if !store_file_nonces_fit(store) {
            return Err(VaultError::MalformedNonce);
        }
    }
    load_or_init_store(existing, password, confirm)
}

/// Changes the master password as `change_master_password` does, after
/// checking that the nonce of the check value fits; one that does not is
/// reported.
pub fn change_master_password_checked(master: &MasterConfig, connections: &Vec<ConnectionConfig>, current: &str, new_password: &str, confirm: &str) -> (r: Result<(MasterConfig, Vec<u8>, Vec<StoredConnection>), VaultError>)
    ensures
        !nonce_fits(master.check) ==> r == Err::<(MasterConfig, Vec<u8>, Vec<StoredConnection>), VaultError>(
            VaultError::MalformedNonce,
        ),
        nonce_fits(master.check) ==> match change_check(*master, current@, new_password@, confirm@) {
            Err(e) => r == Err::<(MasterConfig, Vec<u8>, Vec<StoredConnection>), VaultError>(e),
            Ok(_) => match r {
                Ok((m, k, stored)) => {
                    &&& master_created(m, k@, new_password@)
                    &&& k@.len() == KEY_LEN
                    &&& stored@.len() == connections@.len()
                    &&& forall|i: int|
                        0 <= i < stored@.len() ==> #[trigger] stored_seals(
                            stored@[i],
                            connections@[i]@,
                            k@,
                        )
                },
                Err(e) => e == VaultError::RandomUnavailable || (e == VaultError::EncryptFailed
                    && exists|i: int|
                    0 <= i < connections@.len() && #[trigger] secret_too_long(connections@[i]@)),
            },
        },
        nonce_fits(master.check) && change_check(*master, current@, new_password@, confirm@) is Ok && (exists|i: int|
            0 <= i < connections@.len() && #[trigger] secret_too_long(connections@[i]@)) ==> r is Err,
{
    if !blob_nonce_fits(&master.check) {
        return Err(VaultError::MalformedNonce);
    }
    change_master_password(master, connections, current, new_password, confirm)
}

} // verus!
