//! Password-derived keys and the authenticated envelope around file contents.

use vstd::prelude::*;
use vstd::string::StringExecFns;
use vstd::utf8::{encode_utf8, decode_utf8, valid_utf8, encode_utf8_valid_utf8, encode_utf8_decode_utf8};
use crate::error::EnvaError;
use aes_gcm::aead::{Aead, AeadCore, KeyInit};
use base64::Engine;

verus! {

/// Rounds of the key-derivation function.
pub const ITERATIONS: u32 = 100000;

/// The most plaintext bytes one AES-GCM message may hold.
pub const MAX_PLAINTEXT: u64 = 68719476736;

/// `photon-hq/enva`, the application part of every salt.
pub open spec fn app_salt() -> Seq<char> {
    seq!['p', 'h', 'o', 't', 'o', 'n', '-', 'h', 'q', '/', 'e', 'n', 'v', 'a']
}

/// The salt for a repository: `owner:name:photon-hq/enva`.
pub open spec fn salt_of(owner: Seq<char>, name: Seq<char>) -> Seq<char> {
    owner + seq![':'] + name + seq![':'] + app_salt()
}

/// PBKDF2 with HMAC-SHA-256, 32 bytes of output.
pub uninterp spec fn pbkdf2_sha256_of(password: Seq<u8>, salt: Seq<u8>, rounds: u32) -> Seq<u8>;

/// The key derived for a repository from a password.
pub open spec fn derived_key(owner: Seq<char>, name: Seq<char>, password: Seq<char>) -> Seq<u8> {
    pbkdf2_sha256_of(encode_utf8(password), encode_utf8(salt_of(owner, name)), ITERATIONS)
}

/// Relies on `pbkdf2::pbkdf2_hmac_array::<sha2::Sha256, 32>`: the key depends on
/// password, salt and rounds alone.
#[verifier::external_body]
fn pbkdf2_sha256(password: &[u8], salt: &[u8], rounds: u32) -> (r: [u8; 32])
    ensures
        r@ == pbkdf2_sha256_of(password@, salt@, rounds),
{
    pbkdf2::pbkdf2_hmac_array::<sha2::Sha256, 32>(password, salt, rounds)
}

/// Derives the 256-bit key of a repository from a password.
pub fn derive_key(owner: &str, repo_name: &str, password: &str) -> (r: [u8; 32])
    ensures
        r@ == derived_key(owner@, repo_name@, password@),
{
    let mut salt = String::from_str(owner);
    salt.append(":");
    salt.append(repo_name);
    salt.append(":");
    salt.append("photon-hq/enva");
    proof {
        reveal_strlit(":");
        reveal_strlit("photon-hq/enva");
        assert(salt@ =~= salt_of(owner@, repo_name@));
    }
    pbkdf2_sha256(password.as_bytes(), salt.as_str().as_bytes(), ITERATIONS)
}

/// Deriving a key is a function of owner, name and password: the same three
/// give the same key.
pub proof fn derive_key_deterministic(
    owner1: Seq<char>, name1: Seq<char>, password1: Seq<char>,
    owner2: Seq<char>, name2: Seq<char>, password2: Seq<char>,
)
    requires
        owner1 == owner2,
        name1 == name2,
        password1 == password2,
    ensures
        derived_key(owner1, name1, password1) == derived_key(owner2, name2, password2),
{
}

/// AES-256-GCM encryption of a message under a key and a nonce, tag appended.
pub uninterp spec fn aes256gcm_seal(key: Seq<u8>, nonce: Seq<u8>, plaintext: Seq<u8>) -> Seq<u8>;

/// AES-256-GCM verification and decryption: `None` where the tag does not verify.
pub uninterp spec fn aes256gcm_open(key: Seq<u8>, nonce: Seq<u8>, ciphertext: Seq<u8>) -> Option<Seq<u8>>;

/// Standard base64, padded.
pub uninterp spec fn base64_of(bytes: Seq<u8>) -> Seq<char>;

/// Standard base64 decoding: `None` where the text is not canonical padded base64.
pub uninterp spec fn base64_decoded(text: Seq<char>) -> Option<Seq<u8>>;

pub open spec fn bytes_view(r: Option<Vec<u8>>) -> Option<Seq<u8>> {
    match r {
        Some(v) => Some(v@),
        None => None,
    }
}

/// Relies on `Aead::encrypt` of `aes_gcm::Aes256Gcm`: a function of key, nonce and
/// message, 16 bytes longer than the message, that `Aead::decrypt` turns back into
/// the message under the same key and nonce; it fails only above 2^36 bytes.
#[verifier::external_body]
fn gcm_seal(key: &[u8; 32], nonce: &[u8; 12], plaintext: &[u8]) -> (r: Vec<u8>)
    requires
        plaintext@.len() <= MAX_PLAINTEXT,
    ensures
        r@ == aes256gcm_seal(key@, nonce@, plaintext@),
        r@.len() == plaintext@.len() + 16,
        aes256gcm_open(key@, nonce@, r@) == Some(plaintext@),
{
    let cipher = aes_gcm::Aes256Gcm::new(key.into());
    cipher.encrypt(nonce.into(), plaintext).unwrap_or_default()
}

/// Relies on `Aead::decrypt` of `aes_gcm::Aes256Gcm`: the message, or an error
/// where the tag does not verify or the ciphertext is shorter than the 16-byte
/// tag; a function of key, nonce and ciphertext.
#[verifier::external_body]
fn gcm_open(key: &[u8; 32], nonce: &[u8; 12], ciphertext: &[u8]) -> (r: Option<Vec<u8>>)
    ensures
        bytes_view(r) == aes256gcm_open(key@, nonce@, ciphertext@),
        ciphertext@.len() < 16 ==> r is None,
{
    let cipher = aes_gcm::Aes256Gcm::new(key.into());
    cipher.decrypt(nonce.into(), ciphertext).ok()
}

/// Relies on `AeadCore::generate_nonce` with the operating system's generator:
/// twelve random bytes.
#[verifier::external_body]
pub(crate) fn random_nonce() -> (r: [u8; 12])
{
    aes_gcm::Aes256Gcm::generate_nonce(&mut aes_gcm::aead::OsRng).into()
}

/// Relies on `base64::engine::general_purpose::STANDARD.encode`, which its `decode`
/// reverses.
#[verifier::external_body]
pub(crate) fn base64_encode(bytes: &[u8]) -> (r: String)
    ensures
        r@ == base64_of(bytes@),
        base64_decoded(r@) == Some(bytes@),
{
    base64::engine::general_purpose::STANDARD.encode(bytes)
}

/// Relies on `base64::engine::general_purpose::STANDARD.decode`.
#[verifier::external_body]
pub(crate) fn base64_decode(text: &str) -> (r: Option<Vec<u8>>)
    ensures
        bytes_view(r) == base64_decoded(text@),
{
    base64::engine::general_purpose::STANDARD.decode(text).ok()
}

/// Relies on `String::from_utf8`: the text that the bytes encode, where they are UTF-8.
#[verifier::external_body]
fn utf8_text(bytes: Vec<u8>) -> (r: Option<String>)
    ensures
        r is Some <==> valid_utf8(bytes@),
        r is Some ==> r->0@ == decode_utf8(bytes@),
{
    String::from_utf8(bytes).ok()
}

/// Encrypts `plaintext` under `key` with a fresh random nonce; returns the
/// ciphertext (tag included) and the nonce, which `decrypt` turns back into the
/// plaintext.
pub fn encrypt(key: &[u8; 32], plaintext: &[u8]) -> (r: (Vec<u8>, [u8; 12]))
    requires
        plaintext@.len() <= MAX_PLAINTEXT,
    ensures
        r.0@ == aes256gcm_seal(key@, r.1@, plaintext@),
        r.0@.len() == plaintext@.len() + 16,
        aes256gcm_open(key@, r.1@, r.0@) == Some(plaintext@),
{
    let nonce = random_nonce();
    let ciphertext = gcm_seal(key, &nonce, plaintext);
    (ciphertext, nonce)
}

/// Verifies and decrypts `ciphertext` under `key` and `nonce`.
pub fn decrypt(key: &[u8; 32], ciphertext: &[u8], nonce: &[u8; 12]) -> (r: Result<Vec<u8>, EnvaError>)
    ensures
        match aes256gcm_open(key@, nonce@, ciphertext@) {
            Some(p) => r is Ok && r->Ok_0@ == p,
            None => r == Err::<Vec<u8>, EnvaError>(EnvaError::AuthenticationFailure),
        },
        ciphertext@.len() < 16 ==> r == Err::<Vec<u8>, EnvaError>(EnvaError::AuthenticationFailure),
{
    match gcm_open(key, nonce, ciphertext) {
        Some(p) => Ok(p),
        None => Err(EnvaError::AuthenticationFailure),
    }
}

/// The envelope of a text: base64 of the nonce followed by the sealed UTF-8 bytes.
pub open spec fn envelope_of(key: Seq<u8>, nonce: Seq<u8>, plaintext: Seq<char>) -> Seq<char> {
    base64_of(nonce + aes256gcm_seal(key, nonce, encode_utf8(plaintext)))
}

/// What opening an envelope gives: the text, or `AuthenticationFailure` where the
/// envelope is not base64, is shorter than a nonce, does not verify, or does not
/// hold UTF-8.
pub open spec fn opened(key: Seq<u8>, envelope: Seq<char>) -> Option<Seq<char>> {
    match base64_decoded(envelope) {
        None => None,
        Some(data) => {
            if data.len() < 12 {
                None
            } else {
                match aes256gcm_open(key, data.subrange(0, 12), data.subrange(12, data.len() as int)) {
                    None => None,
                    Some(p) => if valid_utf8(p) {
                        Some(decode_utf8(p))
                    } else {
                        None
                    },
                }
            }
        },
    }
}

pub open spec fn opened_result(key: Seq<u8>, envelope: Seq<char>, r: Result<String, EnvaError>) -> bool {
    match opened(key, envelope) {
        Some(t) => r is Ok && r->Ok_0@ == t,
        None => r == Err::<String, EnvaError>(EnvaError::AuthenticationFailure),
    }
}

/// Seals a text under `key` and the given nonce into an envelope, which
/// `open_envelope` with the same key turns back into the text.
pub fn seal_envelope(key: &[u8; 32], nonce: &[u8; 12], plaintext: &str) -> (r: String)
    requires
        encode_utf8(plaintext@).len() <= MAX_PLAINTEXT,
    ensures
        r@ == envelope_of(key@, nonce@, plaintext@),
        base64_decoded(r@) == Some(nonce@ + aes256gcm_seal(key@, nonce@, encode_utf8(plaintext@))),
        aes256gcm_seal(key@, nonce@, encode_utf8(plaintext@)).len() == encode_utf8(plaintext@).len() + 16,
        opened(key@, r@) == Some(plaintext@),
{
    let bytes = plaintext.as_bytes();
    let sealed = gcm_seal(key, nonce, bytes);
    let mut out: Vec<u8> = Vec::new();
    let mut i: usize = 0;
    while i < 12
        invariant
            i <= 12,
            out@ == nonce@.subrange(0, i as int),
        decreases 12 - i,
    {
        out.push(nonce[i]);
        i = i + 1;
    }
    let mut j: usize = 0;
    while j < sealed.len()
        invariant
            j <= sealed@.len(),
            out@ == nonce@ + sealed@.subrange(0, j as int),
        decreases sealed@.len() - j,
    {
        out.push(sealed[j]);
        j = j + 1;
    }
    assert(sealed@.subrange(0, sealed@.len() as int) =~= sealed@);
    let r = base64_encode(out.as_slice());
    proof {
        let data = nonce@ + sealed@;
        assert(data.subrange(0, 12) =~= nonce@);
        assert(data.subrange(12, data.len() as int) =~= sealed@);
        encode_utf8_valid_utf8(plaintext@);
        encode_utf8_decode_utf8(plaintext@);
    }
    r
}

/// Opens an envelope made by `seal_envelope` (or `encrypt_string`).
pub fn open_envelope(key: &[u8; 32], envelope: &str) -> (r: Result<String, EnvaError>)
    ensures
        opened_result(key@, envelope@, r),
        base64_decoded(envelope@) is None || base64_decoded(envelope@)->0.len() < 28
            ==> r == Err::<String, EnvaError>(EnvaError::AuthenticationFailure),
{
    let data = match base64_decode(envelope) {
        Some(d) => d,
        None => return Err(EnvaError::AuthenticationFailure),
    };
    if data.len() < 12 {
        return Err(EnvaError::AuthenticationFailure);
    }
    let mut nonce: [u8; 12] = [0u8; 12];
    let mut i: usize = 0;
    while i < 12
        invariant
            i <= 12,
            data@.len() >= 12,
            nonce@.len() == 12,
            forall|j: int| 0 <= j < i ==> nonce@[j] == data@[j],
        decreases 12 - i,
    {
        nonce[i] = data[i];
        i = i + 1;
    }
    let mut rest: Vec<u8> = Vec::new();
    let mut k: usize = 12;
    while k < data.len()
        invariant
            12 <= k <= data@.len(),
            rest@ == data@.subrange(12, k as int),
        decreases data@.len() - k,
    {
        rest.push(data[k]);
        k = k + 1;
    }
    assert(nonce@ =~= data@.subrange(0, 12));
    match decrypt(key, rest.as_slice(), &nonce) {
        Err(e) => Err(e),
        Ok(p) => match utf8_text(p) {
            Some(t) => Ok(t),
            None => Err(EnvaError::AuthenticationFailure),
        },
    }
}

} // verus!
