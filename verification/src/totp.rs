//! Second factors and passwords: TOTP generators over base32 secrets, the
//! encryption of stored secrets with XChaCha20-Poly1305 under a base64 key,
//! and Argon2 password hashes.

use vstd::prelude::*;
use vstd::utf8::{encode_utf8, decode_utf8, valid_utf8};
use base64::Engine;
use chacha20poly1305::KeyInit;
use chacha20poly1305::aead::Aead;
use argon2::{PasswordHasher, PasswordVerifier};
use rand::{Rng, RngCore};
use crate::text::{trim_ws, has_prefix, strip_prefix, str_equal, to_owned_string};
use crate::security::{flag_setting, opt_chars, setting_flag};
use crate::auth::TotpSetupResponse;
use crate::auth_flow::{PasswordCheck, TotpCheck, ov};
use crate::account_flow::{GenerateOutcome, NewTotpCheck};

verus! {

/// The hash function of a TOTP generator.
#[derive(Debug, Clone, Copy, PartialEq, Eq, Structural)]
pub enum TotpAlgorithm {
    Sha1,
    Sha256,
    Sha512,
}

/// A TOTP generator: the values totp-rs's `TOTP` holds, which decide the
/// codes it gives and its provisioning URL.
#[derive(Debug, Clone)]
pub struct TotpGenerator {
    pub algorithm: TotpAlgorithm,
    /// Digits of a code.
    pub digits: usize,
    /// Steps before and after the current one whose codes are accepted too.
    pub skew: u8,
    /// Length of a step in seconds.
    pub step: u64,
    /// The shared secret, not encoded.
    pub secret: Vec<u8>,
    pub issuer: Option<String>,
    pub account_name: String,
}

/// The code a generator with this hash, this many digits and this secret
/// gives for the `counter`-th time step (what totp-rs's `TOTP::generate`
/// returns for any time in that step: RFC 6238 over RFC 4226).
pub uninterp spec fn totp_code(algorithm: TotpAlgorithm, digits: usize, secret: Seq<u8>, counter: u64) -> Seq<char>;

/// The QR code, as base64 PNG, of the provisioning URL of a generator with
/// these values, if one can be drawn (what totp-rs's `TOTP::get_qr_base64`
/// returns; the skew is not part of the URL).
pub uninterp spec fn totp_qr_image(
    algorithm: TotpAlgorithm,
    digits: usize,
    step: u64,
    secret: Seq<u8>,
    issuer: Option<Seq<char>>,
    account: Seq<char>,
) -> Option<Seq<char>>;

/// The bytes that unpadded RFC 4648 base32 text decodes to, if it is valid.
pub uninterp spec fn base32_decoded(text: Seq<char>) -> Option<Seq<u8>>;

/// The unpadded RFC 4648 base32 text of some bytes.
pub uninterp spec fn base32_encoded(data: Seq<u8>) -> Seq<char>;

/// A character of the RFC 4648 base32 alphabet.
pub open spec fn is_base32_char(c: char) -> bool {
    ('A' <= c && c <= 'Z') || ('2' <= c && c <= '7')
}

/// Decodes unpadded RFC 4648 base32 text, by base32's `decode`.
///
/// Trusted: claims the result is `base32_decoded` of the text.
#[verifier::external_body]
fn base32_decode(text: &str) -> (r: Option<Vec<u8>>)
    ensures
        match r {
            Some(b) => base32_decoded(text@) == Some(b@),
            None => base32_decoded(text@).is_none(),
        },
{
    base32::decode(base32::Alphabet::Rfc4648 { padding: false }, text)
}

/// Unpadded RFC 4648 base32 text of `data`, by base32's `encode` (what
/// totp-rs's `TOTP::get_secret_base32` returns for a generator's secret).
///
/// Trusted: claims the result is `base32_encoded` of the bytes, is written
/// in the alphabet A-Z, 2-7, and decodes back to the same bytes (the
/// round trip the crate tests).
#[verifier::external_body]
fn base32_encode(data: &[u8]) -> (r: String)
    requires
        data@.len() <= usize::MAX / 2,
    ensures
        r@ == base32_encoded(data@),
        forall|i: int| 0 <= i < r@.len() ==> is_base32_char(#[trigger] r@[i]),
        base32_decoded(r@) == Some(data@),
{
    base32::encode(base32::Alphabet::Rfc4648 { padding: false }, data)
}

/// Whether totp-rs accepts the parameters of a generator: 6 to 8 digits, a
/// secret of at least 16 bytes, and no ':' in the issuer or account name.
pub open spec fn totp_params_accepted(
    digits: int,
    secret: Seq<u8>,
    issuer: Option<Seq<char>>,
    account: Seq<char>,
) -> bool {
    &&& 6 <= digits <= 8
    &&& secret.len() >= 16
    &&& match issuer {
        Some(i) => !i.contains(':'),
        None => true,
    }
    &&& !account.contains(':')
}

/// A TOTP generator with these values, by totp-rs's `TOTP::new`, read back
/// as the values it holds.
///
/// Trusted: claims a generator comes back exactly when the checks of
/// `TOTP::new` pass (`totp_params_accepted`), and that it holds the values
/// given (`TOTP::new` stores them through `new_unchecked`).
#[verifier::external_body]
fn totp_new(
    algorithm: TotpAlgorithm,
    digits: usize,
    skew: u8,
    step: u64,
    secret: Vec<u8>,
    issuer: Option<String>,
    account: String,
) -> (r: Option<TotpGenerator>)
    ensures
        r.is_some() == totp_params_accepted(digits as int, secret@, ov(issuer), account@),
        r matches Some(g) ==> g.algorithm == algorithm && g.digits == digits && g.skew == skew
            && g.step == step && g.secret@ == secret@ && ov(g.issuer) == ov(issuer)
            && g.account_name@ == account@,
{
    let alg = match algorithm {
        TotpAlgorithm::Sha1 => totp_rs::Algorithm::SHA1,
        TotpAlgorithm::Sha256 => totp_rs::Algorithm::SHA256,
        TotpAlgorithm::Sha512 => totp_rs::Algorithm::SHA512,
    };
    match totp_rs::TOTP::new(alg, digits, skew, step, secret, issuer, account) {
        Ok(t) => Some(TotpGenerator { algorithm, digits: t.digits, skew: t.skew, step: t.step,
            secret: t.secret, issuer: t.issuer, account_name: t.account_name }),
        Err(_) => None,
    }
}

/// Whether `code` is valid now, within the generator's skew, by totp-rs's
/// `TOTP::check_current` on the generator `g` holds; `None` when the
/// system clock is unreadable.
///
/// Trusted: claims that an accepted code is the code of some time step
/// (`check` compares the code with `generate` at the steps around now).
/// Which steps are around now depends on the clock and is not stated, nor
/// is a refusal. Digits outside 6 to 8 are left out (`generate` raises 10
/// to their power), and so are a zero step (it divides by it) and a skew of
/// more steps than a day holds (it subtracts the skew from the current
/// step).
#[verifier::external_body]
fn totp_check_current(g: &TotpGenerator, code: &str) -> (r: Option<bool>)
    requires
        6 <= g.digits <= 8,
        g.step > 0,
        (g.skew as int + 1) * (g.step as int) <= 86400,
    ensures
        r == Some(true) ==> exists|c: u64| code@ == totp_code(g.algorithm, g.digits, g.secret@, c),
{
    let algorithm = match g.algorithm {
        TotpAlgorithm::Sha1 => totp_rs::Algorithm::SHA1,
        TotpAlgorithm::Sha256 => totp_rs::Algorithm::SHA256,
        TotpAlgorithm::Sha512 => totp_rs::Algorithm::SHA512,
    };
    let (secret, issuer, account_name) = (g.secret.clone(), g.issuer.clone(), g.account_name.clone());
    let t = totp_rs::TOTP { algorithm, digits: g.digits, skew: g.skew, step: g.step, secret, issuer, account_name };
    t.check_current(code).ok()
}

/// The QR code of the provisioning URL of the generator `g` holds, as
/// base64 PNG, by totp-rs's `TOTP::get_qr_base64`.
///
/// Trusted: claims the outcome is `totp_qr_image` of the generator's values
/// (the URL is built from them, and drawing it is deterministic).
#[verifier::external_body]
fn totp_qr_base64(g: &TotpGenerator) -> (r: Option<String>)
    ensures
        ov(r) == totp_qr_image(g.algorithm, g.digits, g.step, g.secret@, ov(g.issuer), g.account_name@),
{
    let algorithm = match g.algorithm {
        TotpAlgorithm::Sha1 => totp_rs::Algorithm::SHA1,
        TotpAlgorithm::Sha256 => totp_rs::Algorithm::SHA256,
        TotpAlgorithm::Sha512 => totp_rs::Algorithm::SHA512,
    };
    let (secret, issuer, account_name) = (g.secret.clone(), g.issuer.clone(), g.account_name.clone());
    let t = totp_rs::TOTP { algorithm, digits: g.digits, skew: g.skew, step: g.step, secret, issuer, account_name };
    t.get_qr_base64().ok()
}

/// `len` bytes from the thread-local generator, by rand's `thread_rng` and
/// `Rng::fill`.
///
/// Trusted: claims only the length.
#[verifier::external_body]
fn thread_random_bytes(len: usize) -> (r: Vec<u8>)
    ensures
        r@.len() == len,
{
    let mut bytes = vec![0u8; len];
    rand::thread_rng().fill(bytes.as_mut_slice());
    bytes
}

/// `len` bytes from the operating system's random source, by rand's
/// `OsRng` and `RngCore::fill_bytes` (which panics if the source fails).
///
/// Trusted: claims only the length.
#[verifier::external_body]
pub(crate) fn os_random_bytes(len: usize) -> (r: Vec<u8>)
    ensures
        r@.len() == len,
{
    let mut bytes = vec![0u8; len];
    rand::rngs::OsRng.fill_bytes(bytes.as_mut_slice());
    bytes
}

/// Whether the text of a secret makes a TOTP generator: it is unpadded
/// base32 of at least 16 bytes.
pub open spec fn totp_secret_usable(secret: Seq<char>) -> bool {
    match base32_decoded(secret) {
        Some(b) => b.len() >= 16,
        None => false,
    }
}

/// The bytes of a base32 TOTP secret.
pub fn decode_totp_secret(secret: &str) -> (r: Result<Vec<u8>, &'static str>)
    ensures
        match r {
            Ok(b) => base32_decoded(secret@) == Some(b@),
            Err(m) => base32_decoded(secret@).is_none() && m@ == "Invalid TOTP secret encoding"@,
        },
{
    match base32_decode(secret) {
        Some(b) => Ok(b),
        None => Err("Invalid TOTP secret encoding"),
    }
}

/// The six-digit, 30-second SHA-1 generator (one step of skew) for a stored
/// secret.
pub fn totp_from_secret(secret: &str) -> (r: Result<TotpGenerator, &'static str>)
    ensures
        r.is_ok() == totp_secret_usable(secret@),
        match r {
            Ok(g) => {
                &&& g.algorithm == TotpAlgorithm::Sha1
                &&& g.digits == 6
                &&& g.skew == 1
                &&& g.step == 30
                &&& base32_decoded(secret@) == Some(g.secret@)
                &&& g.issuer is None
                &&& g.account_name@ == "wavry"@
            },
            Err(m) => m@ == (if base32_decoded(secret@).is_none() {
                "Invalid TOTP secret encoding"@
            } else {
                "Failed to initialize TOTP"@
            }),
        },
{
    let decoded = decode_totp_secret(secret)?;
    let account = to_owned_string("wavry");
    proof {
        reveal_strlit("wavry");
        assert(!account@.contains(':')) by {
            assert forall|i: int| 0 <= i < account@.len() implies account@[i] != ':' by {}
        }
    }
    match totp_new(TotpAlgorithm::Sha1, 6, 1, 30, decoded, None, account) {
        Some(t) => Ok(t),
        None => Err("Failed to initialize TOTP"),
    }
}

/// Checks a code against a new secret (the activation of TOTP): `InvalidSecret`
/// when the secret makes no generator, else whether the code is valid now.
pub fn check_new_totp(secret: &str, code: &str) -> (r: NewTotpCheck)
    ensures
        (r == NewTotpCheck::InvalidSecret) == !totp_secret_usable(secret@),
        r == NewTotpCheck::Accepted ==> code_of_secret(secret@, code@),
{
    match totp_from_secret(secret) {
        Err(_) => NewTotpCheck::InvalidSecret,
        Ok(totp) => match totp_check_current(&totp, code) {
            Some(true) => NewTotpCheck::Accepted,
            _ => NewTotpCheck::Rejected,
        },
    }
}

/// Whether `code` is the code of some time step of the six-digit SHA-1
/// generator over the base32 secret `secret`.
pub open spec fn code_of_secret(secret: Seq<char>, code: Seq<char>) -> bool {
    base32_decoded(secret) matches Some(b) && exists|c: u64|
        code == #[trigger] totp_code(TotpAlgorithm::Sha1, 6, b, c)
}

/// A new TOTP secret of 20 random bytes for the account `email`, issued by
/// "Wavry", with its base32 text and QR code. Fails with `SecretFailed`
/// exactly when the account name holds ':', and with `QrFailed` when the
/// code cannot be drawn.
pub fn generate_totp_setup(email: &str) -> (r: Result<TotpSetupResponse, GenerateOutcome>)
    ensures
        match r {
            Ok(resp) => {
                &&& !email@.contains(':')
                &&& exists|b: Seq<u8>|
                    #![trigger base32_encoded(b)]
                    b.len() == 20 && resp.secret@ == base32_encoded(b) && totp_qr_image(
                        TotpAlgorithm::Sha1,
                        6,
                        30,
                        b,
                        Some("Wavry"@),
                        email@,
                    ) == Some(resp.qr_png_base64@)
                &&& base32_decoded(resp.secret@) matches Some(b) && b.len() == 20
                &&& forall|i: int| 0 <= i < resp.secret@.len() ==> is_base32_char(#[trigger] resp.secret@[i])
            },
            Err(o) => o != GenerateOutcome::Generated && (o == GenerateOutcome::SecretFailed) == email@.contains(':'),
        },
{
    let bytes = thread_random_bytes(20);
    let secret = base32_encode(bytes.as_slice());
    let issuer = to_owned_string("Wavry");
    proof {
        reveal_strlit("Wavry");
        assert(!issuer@.contains(':')) by {
            assert forall|i: int| 0 <= i < issuer@.len() implies issuer@[i] != ':' by {}
        }
    }
    let account = to_owned_string(email);
    match totp_new(TotpAlgorithm::Sha1, 6, 1, 30, bytes, Some(issuer), account) {
        None => Err(GenerateOutcome::SecretFailed),
        Some(totp) => match totp_qr_base64(&totp) {
            None => Err(GenerateOutcome::QrFailed),
            Some(qr) => Ok(TotpSetupResponse { secret, qr_png_base64: qr }),
        },
    }
}

/// The bytes that standard (padded) base64 text decodes to, if it is valid.
pub uninterp spec fn base64_decoded(text: Seq<char>) -> Option<Seq<u8>>;

/// The standard (padded) base64 text of some bytes.
pub uninterp spec fn base64_encoded(data: Seq<u8>) -> Seq<char>;

/// Decodes standard base64 text, by base64's `general_purpose::STANDARD`
/// engine and `Engine::decode`.
///
/// Trusted: claims the result is `base64_decoded` of the text.
#[verifier::external_body]
fn base64_decode(text: &str) -> (r: Option<Vec<u8>>)
    ensures
        match r {
            Some(b) => base64_decoded(text@) == Some(b@),
            None => base64_decoded(text@).is_none(),
        },
{
    base64::engine::general_purpose::STANDARD.decode(text).ok()
}

/// Standard base64 text of `data`, by base64's `general_purpose::STANDARD`
/// engine and `Engine::encode` (which panics when the length of the text
/// overflows `usize`).
///
/// Trusted: claims the result is `base64_encoded` of the bytes and decodes
/// back to them.
#[verifier::external_body]
fn base64_encode(data: &[u8]) -> (r: String)
    requires
        data@.len() <= usize::MAX / 2,
    ensures
        r@ == base64_encoded(data@),
        base64_decoded(r@) == Some(data@),
{
    base64::engine::general_purpose::STANDARD.encode(data)
}

/// The XChaCha20-Poly1305 ciphertext (tag included) of a plaintext under a
/// key and nonce, with no associated data.
pub uninterp spec fn xchacha_sealed(key: Seq<u8>, nonce: Seq<u8>, plaintext: Seq<u8>) -> Seq<u8>;

/// The plaintext of an XChaCha20-Poly1305 ciphertext under a key and nonce,
/// if the tag authenticates it.
pub uninterp spec fn xchacha_opened(key: Seq<u8>, nonce: Seq<u8>, ciphertext: Seq<u8>) -> Option<
    Seq<u8>,
>;

/// The longest plaintext XChaCha20-Poly1305 seals: chacha20poly1305 refuses
/// one of `u32::MAX` or more 64-byte blocks.
pub open spec fn xchacha_sealable(plaintext: Seq<u8>) -> bool {
    plaintext.len() / 64 < 0xffff_ffff
}

/// Seals `plaintext`, by chacha20poly1305's `XChaCha20Poly1305` and
/// `Aead::encrypt` (`Key::from_slice` and `XNonce::from_slice` panic on
/// other lengths than 32 and 24 bytes).
///
/// Trusted: claims the ciphertext is `xchacha_sealed` of the arguments, 16
/// bytes longer than the plaintext, and opens back to it under the same key
/// and nonce; and that sealing fails only on plaintexts the cipher refuses.
#[verifier::external_body]
fn xchacha_seal(key: &[u8], nonce: &[u8], plaintext: &[u8]) -> (r: Option<Vec<u8>>)
    requires
        key@.len() == 32,
        nonce@.len() == 24,
        plaintext@.len() + 16 <= isize::MAX,
    ensures
        r.is_some() == xchacha_sealable(plaintext@),
        match r {
            Some(c) => {
                &&& c@ == xchacha_sealed(key@, nonce@, plaintext@)
                &&& c@.len() == plaintext@.len() + 16
                &&& xchacha_opened(key@, nonce@, c@) == Some(plaintext@)
            },
            None => true,
        },
{
    let cipher = chacha20poly1305::XChaCha20Poly1305::new(chacha20poly1305::Key::from_slice(key));
    cipher.encrypt(chacha20poly1305::XNonce::from_slice(nonce), plaintext).ok()
}

/// Opens `ciphertext`, by chacha20poly1305's `XChaCha20Poly1305` and
/// `Aead::decrypt`.
///
/// Trusted: claims the result is `xchacha_opened` of the arguments.
#[verifier::external_body]
fn xchacha_open(key: &[u8], nonce: &[u8], ciphertext: &[u8]) -> (r: Option<Vec<u8>>)
    requires
        key@.len() == 32,
        nonce@.len() == 24,
    ensures
        match r {
            Some(p) => xchacha_opened(key@, nonce@, ciphertext@) == Some(p@),
            None => xchacha_opened(key@, nonce@, ciphertext@).is_none(),
        },
{
    let cipher = chacha20poly1305::XChaCha20Poly1305::new(chacha20poly1305::Key::from_slice(key));
    cipher.decrypt(chacha20poly1305::XNonce::from_slice(nonce), ciphertext).ok()
}

/// The text of UTF-8 bytes, by std's `String::from_utf8`.
///
/// Trusted: claims, as std documents, that it succeeds exactly on valid
/// UTF-8 and then holds the characters the bytes encode.
#[verifier::external_body]
pub(crate) fn utf8_string(bytes: Vec<u8>) -> (r: Option<String>)
    ensures
        r.is_some() == valid_utf8(bytes@),
        match r {
            Some(s) => s@ == decode_utf8(bytes@),
            None => true,
        },
{
    String::from_utf8(bytes).ok()
}

/// Why a TOTP secret could not be stored or read back.
#[derive(Debug, Clone, Copy, PartialEq, Eq, Structural)]
pub enum TotpSecretError {
    /// No key is configured and plain secrets are not allowed.
    KeyMissing,
    KeyNotBase64,
    /// The key does not decode to 32 bytes.
    KeyWrongLength,
    EncryptFailed,
    /// A plain stored secret, while plain secrets are not allowed.
    PlaintextRefused,
    /// An encrypted stored secret, while no key is configured.
    KeyRequired,
    StoredNotBase64,
    /// The stored blob is shorter than a nonce.
    StoredTooShort,
    DecryptFailed,
    NotUtf8,
}

impl TotpSecretError {
    pub open spec fn message_text(self) -> Seq<char> {
        match self {
            TotpSecretError::KeyMissing => "WAVRY_TOTP_KEY_B64 is required unless WAVRY_ALLOW_INSECURE_TOTP=1"@,
            TotpSecretError::KeyNotBase64 => "WAVRY_TOTP_KEY_B64 must be base64"@,
            TotpSecretError::KeyWrongLength => "WAVRY_TOTP_KEY_B64 must decode to exactly 32 bytes"@,
            TotpSecretError::EncryptFailed => "failed to encrypt TOTP secret"@,
            TotpSecretError::PlaintextRefused => "plaintext TOTP secret found; set WAVRY_ALLOW_INSECURE_TOTP=1 to migrate"@,
            TotpSecretError::KeyRequired => "WAVRY_TOTP_KEY_B64 required to decrypt stored TOTP secret"@,
            TotpSecretError::StoredNotBase64 => "stored TOTP secret is not valid base64"@,
            TotpSecretError::StoredTooShort => "stored TOTP secret blob is too short"@,
            TotpSecretError::DecryptFailed => "failed to decrypt TOTP secret"@,
            TotpSecretError::NotUtf8 => "decrypted TOTP secret is not utf-8"@,
        }
    }

    /// The message of the error.
    pub fn message(&self) -> (s: String)
        ensures
            s@ == self.message_text(),
    {
        let m = match self {
            TotpSecretError::KeyMissing => "WAVRY_TOTP_KEY_B64 is required unless WAVRY_ALLOW_INSECURE_TOTP=1",
            TotpSecretError::KeyNotBase64 => "WAVRY_TOTP_KEY_B64 must be base64",
            TotpSecretError::KeyWrongLength => "WAVRY_TOTP_KEY_B64 must decode to exactly 32 bytes",
            TotpSecretError::EncryptFailed => "failed to encrypt TOTP secret",
            TotpSecretError::PlaintextRefused => "plaintext TOTP secret found; set WAVRY_ALLOW_INSECURE_TOTP=1 to migrate",
            TotpSecretError::KeyRequired => "WAVRY_TOTP_KEY_B64 required to decrypt stored TOTP secret",
            TotpSecretError::StoredNotBase64 => "stored TOTP secret is not valid base64",
            TotpSecretError::StoredTooShort => "stored TOTP secret blob is too short",
            TotpSecretError::DecryptFailed => "failed to decrypt TOTP secret",
            TotpSecretError::NotUtf8 => "decrypted TOTP secret is not utf-8",
        };
        to_owned_string(m)
    }
}

/// Whether plain TOTP secrets may be stored and read: never in production
/// (the production flag on, or the environment named exactly "production"),
/// else as the allow setting says (off by default).
pub open spec fn insecure_totp_setting(
    production: Option<Seq<char>>,
    environment: Option<Seq<char>>,
    allow_insecure: Option<Seq<char>>,
) -> bool {
    !flag_setting(production, false) && environment != Some("production"@) && flag_setting(
        allow_insecure,
        false,
    )
}

/// Whether plain TOTP secrets are allowed, from the texts of the production
/// flag, the environment name and the allow setting (absent when unset).
pub fn insecure_totp_allowed(
    production: Option<&str>,
    environment: Option<&str>,
    allow_insecure: Option<&str>,
) -> (b: bool)
    ensures
        b == insecure_totp_setting(opt_chars(production), opt_chars(environment), opt_chars(allow_insecure)),
{
    if setting_flag(production, false) {
        return false;
    }
    if let Some(env) = environment {
        if str_equal(env, "production") {
            return false;
        }
    }
    setting_flag(allow_insecure, false)
}

/// The key for stored secrets from the configured base64 text: none when
/// the text is blank and plain secrets are allowed, an error when it is
/// blank otherwise, is not base64 or is not 32 bytes.
pub open spec fn totp_key_outcome(raw: Seq<char>, insecure: bool) -> Result<Option<Seq<u8>>, TotpSecretError> {
    let t = trim_ws(raw);
    if t.len() == 0 {
        if insecure {
            Ok(None)
        } else {
            Err(TotpSecretError::KeyMissing)
        }
    } else {
        match base64_decoded(t) {
            None => Err(TotpSecretError::KeyNotBase64),
            Some(b) => if b.len() == 32 {
                Ok(Some(b))
            } else {
                Err(TotpSecretError::KeyWrongLength)
            },
        }
    }
}

/// The view of a loaded key.
pub open spec fn key_view(r: Result<Option<Vec<u8>>, TotpSecretError>) -> Result<Option<Seq<u8>>, TotpSecretError> {
    match r {
        Ok(Some(k)) => Ok(Some(k@)),
        Ok(None) => Ok(None),
        Err(e) => Err(e),
    }
}

/// Loads the key for stored secrets from its configured text.
pub fn load_totp_key(raw: &str, insecure: bool) -> (r: Result<Option<Vec<u8>>, TotpSecretError>)
    ensures
        key_view(r) == totp_key_outcome(raw@, insecure),
{
    let t = crate::text::trim(raw);
    if t.as_str().unicode_len() == 0 {
        if insecure {
            return Ok(None);
        }
        return Err(TotpSecretError::KeyMissing);
    }
    match base64_decode(t.as_str()) {
        None => Err(TotpSecretError::KeyNotBase64),
        Some(b) => if b.len() == 32 {
            Ok(Some(b))
        } else {
            Err(TotpSecretError::KeyWrongLength)
        },
    }
}

/// The marker in front of an encrypted stored secret.
pub open spec fn encrypted_marker() -> Seq<char> {
    "enc:v1:"@
}

/// The secret read back from its stored text: a plain text is taken as it
/// is only when plain secrets are allowed; an encrypted one is base64 after
/// the marker, of a 24-byte nonce followed by the ciphertext of the secret's
/// UTF-8 bytes under the configured key.
pub open spec fn decrypted_secret(stored: Seq<char>, raw_key: Seq<char>, insecure: bool) -> Result<
    Seq<char>,
    TotpSecretError,
> {
    if !has_prefix(stored, encrypted_marker()) {
        if insecure {
            Ok(stored)
        } else {
            Err(TotpSecretError::PlaintextRefused)
        }
    } else {
        match totp_key_outcome(raw_key, insecure) {
            Err(e) => Err(e),
            Ok(None) => Err(TotpSecretError::KeyRequired),
            Ok(Some(key)) => match base64_decoded(
                stored.subrange(encrypted_marker().len() as int, stored.len() as int),
            ) {
                None => Err(TotpSecretError::StoredNotBase64),
                Some(blob) => if blob.len() < 24 {
                    Err(TotpSecretError::StoredTooShort)
                } else {
                    match xchacha_opened(key, blob.subrange(0, 24), blob.subrange(24, blob.len() as int)) {
                        None => Err(TotpSecretError::DecryptFailed),
                        Some(p) => if valid_utf8(p) {
                            Ok(decode_utf8(p))
                        } else {
                            Err(TotpSecretError::NotUtf8)
                        },
                    }
                },
            },
        }
    }
}

/// Reads a stored TOTP secret back (see `decrypted_secret`).
pub fn decrypt_totp_secret(stored: &str, raw_key: &str, insecure: bool) -> (r: Result<String, TotpSecretError>)
    ensures
        match r {
            Ok(s) => decrypted_secret(stored@, raw_key@, insecure) == Ok::<Seq<char>, TotpSecretError>(s@),
            Err(e) => decrypted_secret(stored@, raw_key@, insecure) == Err::<Seq<char>, TotpSecretError>(e),
        },
{
    let encoded = match strip_prefix(stored, "enc:v1:") {
        None => {
            if insecure {
                return Ok(to_owned_string(stored));
            }
            return Err(TotpSecretError::PlaintextRefused);
        },
        Some(e) => e,
    };
    let key = match load_totp_key(raw_key, insecure) {
        Err(e) => return Err(e),
        Ok(None) => return Err(TotpSecretError::KeyRequired),
        Ok(Some(k)) => k,
    };
    let mut blob = match base64_decode(encoded.as_str()) {
        None => return Err(TotpSecretError::StoredNotBase64),
        Some(b) => b,
    };
    if blob.len() < 24 {
        return Err(TotpSecretError::StoredTooShort);
    }
    let ciphertext = blob.split_off(24);
    let plaintext = match xchacha_open(key.as_slice(), blob.as_slice(), ciphertext.as_slice()) {
        None => return Err(TotpSecretError::DecryptFailed),
        Some(p) => p,
    };
    match utf8_string(plaintext) {
        Some(s) => Ok(s),
        None => Err(TotpSecretError::NotUtf8),
    }
}

/// Encrypts a TOTP secret for storage under the configured key, with a
/// fresh random nonce; stores it plain when no key is configured and plain
/// secrets are allowed. What comes back reads back as the same secret.
pub fn encrypt_totp_secret(secret: &str, raw_key: &str, insecure: bool) -> (r: Result<String, TotpSecretError>)
    requires
        encode_utf8(secret@).len() + 40 <= usize::MAX / 2,
    ensures
        match totp_key_outcome(raw_key@, insecure) {
            Err(e) => r == Err::<String, TotpSecretError>(e),
            Ok(None) => r matches Ok(s) && s@ == secret@,
            Ok(Some(_)) => if xchacha_sealable(encode_utf8(secret@)) {
                &&& r matches Ok(s)
                &&& has_prefix(r->Ok_0@, encrypted_marker())
                &&& decrypted_secret(r->Ok_0@, raw_key@, insecure) == Ok::<Seq<char>, TotpSecretError>(secret@)
            } else {
                r == Err::<String, TotpSecretError>(TotpSecretError::EncryptFailed)
            },
        },
{
    let key = match load_totp_key(raw_key, insecure) {
        Err(e) => return Err(e),
        Ok(None) => return Ok(to_owned_string(secret)),
        Ok(Some(k)) => k,
    };
    let nonce = os_random_bytes(24);
    let ciphertext = match xchacha_seal(key.as_slice(), nonce.as_slice(), secret.as_bytes()) {
        None => return Err(TotpSecretError::EncryptFailed),
        Some(c) => c,
    };
    let ghost n = nonce@;
    let ghost c = ciphertext@;
    let mut blob = nonce;
    let mut rest = ciphertext;
    blob.append(&mut rest);
    let encoded = base64_encode(blob.as_slice());
    let mut out = to_owned_string("enc:v1:");
    crate::text::append_str(&mut out, encoded.as_str());
    proof {
        let m = encrypted_marker();
        assert(out@.subrange(0, m.len() as int) =~= m);
        assert(out@.subrange(m.len() as int, out@.len() as int) =~= encoded@);
        assert(blob@.subrange(0, 24) =~= n);
        assert(blob@.subrange(24, blob@.len() as int) =~= c);
        vstd::utf8::encode_utf8_valid_utf8(secret@);
        vstd::utf8::encode_utf8_decode_utf8(secret@);
    }
    Ok(out)
}

/// Checks a code against a stored secret (the second step of a login, or
/// the current code when TOTP is replaced): `SecretUnavailable` when the
/// secret cannot be read back, `GeneratorUnavailable` when it makes no
/// generator, else whether the code is valid now.
pub fn check_totp_code(stored_secret: &str, code: &str, raw_key: &str, insecure: bool) -> (r: TotpCheck)
    ensures
        match decrypted_secret(stored_secret@, raw_key@, insecure) {
            Err(_) => r == TotpCheck::SecretUnavailable,
            Ok(s) => if totp_secret_usable(s) {
                &&& r == TotpCheck::Accepted || r == TotpCheck::Rejected
                &&& r == TotpCheck::Accepted ==> code_of_secret(s, code@)
            } else {
                r == TotpCheck::GeneratorUnavailable
            },
        },
{
    let secret = match decrypt_totp_secret(stored_secret, raw_key, insecure) {
        Err(_) => return TotpCheck::SecretUnavailable,
        Ok(s) => s,
    };
    match totp_from_secret(secret.as_str()) {
        Err(_) => TotpCheck::GeneratorUnavailable,
        Ok(totp) => match totp_check_current(&totp, code) {
            Some(true) => TotpCheck::Accepted,
            _ => TotpCheck::Rejected,
        },
    }
}

/// Whether text is a PHC password-hash string.
pub uninterp spec fn phc_parses(hash: Seq<char>) -> bool;

/// Whether Argon2 with the parameters a PHC string records accepts a
/// password for it.
pub uninterp spec fn argon2_accepts(hash: Seq<char>, password: Seq<char>) -> bool;

/// Whether `hash` parses as a PHC string, by password-hash's
/// `PasswordHash::new`.
///
/// Trusted: claims the outcome is `phc_parses` of the text.
#[verifier::external_body]
fn phc_hash_parses(hash: &str) -> (r: bool)
    ensures
        r == phc_parses(hash@),
{
    argon2::password_hash::PasswordHash::new(hash).is_ok()
}

/// Whether `password` matches the PHC string `hash`, by argon2's
/// `Argon2::default()` and `PasswordVerifier::verify_password` on the
/// parsed hash.
///
/// Trusted: claims the outcome is `argon2_accepts` of the two texts.
#[verifier::external_body]
fn argon2_verify(hash: &str, password: &str) -> (r: bool)
    requires
        phc_parses(hash@),
    ensures
        r == argon2_accepts(hash@, password@),
{
    match argon2::password_hash::PasswordHash::new(hash) {
        Ok(parsed) => argon2::Argon2::default().verify_password(password.as_bytes(), &parsed).is_ok(),
        Err(_) => false,
    }
}

/// A PHC string of `password` under Argon2's default parameters and a
/// fresh salt, by password-hash's `SaltString::generate` with its `OsRng`
/// and argon2's `PasswordHasher::hash_password`.
///
/// Trusted: claims that a hash it returns parses and accepts `password`,
/// the round trip argon2 documents, and that hashing fails exactly when the
/// password is longer than argon2's `MAX_PWD_LEN` (0xFFFF_FFFF bytes): with
/// the default parameters, a generated salt and the default output length,
/// `verify_inputs` is the only check in `hash_password` that can refuse.
/// Which hash comes back depends on the random salt and is not stated.
#[verifier::external_body]
fn argon2_hash(password: &str) -> (r: Option<String>)
    ensures
        r is Some <==> encode_utf8(password@).len() <= 0xFFFF_FFFF,
        match r {
            Some(h) => phc_parses(h@) && argon2_accepts(h@, password@),
            None => true,
        },
{
    let salt = argon2::password_hash::SaltString::generate(&mut argon2::password_hash::rand_core::OsRng);
    match argon2::Argon2::default().hash_password(password.as_bytes(), &salt) {
        Ok(h) => Some(h.to_string()),
        Err(_) => None,
    }
}

/// The outcome of checking a password against a stored hash.
pub open spec fn password_verdict(hash: Seq<char>, password: Seq<char>) -> PasswordCheck {
    if !phc_parses(hash) {
        PasswordCheck::BadStoredHash
    } else if argon2_accepts(hash, password) {
        PasswordCheck::Match
    } else {
        PasswordCheck::Mismatch
    }
}

/// Checks a password against a stored Argon2 hash.
pub fn verify_password(stored_hash: &str, password: &str) -> (r: PasswordCheck)
    ensures
        r == password_verdict(stored_hash@, password@),
{
    if !phc_hash_parses(stored_hash) {
        PasswordCheck::BadStoredHash
    } else if argon2_verify(stored_hash, password) {
        PasswordCheck::Match
    } else {
        PasswordCheck::Mismatch
    }
}

/// Hashes a password for storage; a hash it returns checks as a match for
/// the same password. Hashing succeeds unless the password is longer than
/// 0xFFFF_FFFF bytes.
pub fn hash_password(password: &str) -> (r: Option<String>)
    ensures
        r is Some <==> encode_utf8(password@).len() <= 0xFFFF_FFFF,
        match r {
            Some(h) => password_verdict(h@, password@) == PasswordCheck::Match,
            None => true,
        },
{
    argon2_hash(password)
}

/// The secret a setup hands out is accepted as the secret of an activation:
/// white space removal leaves base32 text unchanged, and 20 bytes make a
/// generator.
pub proof fn law_setup_secret_activates(secret: Seq<char>)
    requires
        base32_decoded(secret) matches Some(b) && b.len() == 20,
        forall|i: int| 0 <= i < secret.len() ==> is_base32_char(#[trigger] secret[i]),
    ensures
        secret.filter(|c: char| !crate::text::is_ws(c)) == secret,
        totp_secret_usable(secret.filter(|c: char| !crate::text::is_ws(c))),
{
    lemma_filter_keeps_all(secret);
}

proof fn lemma_filter_keeps_all(s: Seq<char>)
    requires
        forall|i: int| 0 <= i < s.len() ==> is_base32_char(#[trigger] s[i]),
    ensures
        s.filter(|c: char| !crate::text::is_ws(c)) == s,
    decreases s.len(),
{
    reveal_with_fuel(Seq::filter, 1);
    if s.len() > 0 {
        lemma_filter_keeps_all(s.drop_last());
        assert(is_base32_char(s[s.len() - 1]));
        assert(s.drop_last().push(s.last()) =~= s);
    }
}

} // verus!
