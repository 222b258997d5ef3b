//! Keys kept in the operating system's credential store, one per repository.

use vstd::prelude::*;
use vstd::string::StringExecFns;
use crate::cipher::{base64_of, base64_decoded, derive_key, seal_envelope, open_envelope, opened, envelope_of, aes256gcm_seal, MAX_PLAINTEXT};
use vstd::utf8::encode_utf8;
use crate::error::{EnvaError, is_invalid_url};
use crate::repo::{parse_github_repo, github_repo_of};

verus! {

#[verifier::external_type_specification]
#[verifier::external_body]
pub struct ExEntry(keyring::Entry);

#[verifier::external_type_specification]
#[verifier::external_body]
pub struct ExKeyringError(keyring::Error);

/// Relies on `keyring::Entry::new`: a handle on the credential `(service, account)`.
#[verifier::external_body]
fn keychain_entry(service: &str, account: &str) -> (r: Result<keyring::Entry, keyring::Error>)
{
    keyring::Entry::new(service, account)
}

/// Relies on `keyring::Entry::set_password`: stores the secret under the entry.
#[verifier::external_body]
fn keychain_set(entry: &keyring::Entry, secret: &str) -> (r: Result<(), keyring::Error>)
{
    entry.set_password(secret)
}

/// Why the credential store gave no secret.
#[derive(Debug, Clone, Copy, PartialEq, Eq)]
pub enum KeychainError {
    /// The store holds nothing for the entry.
    NoEntry,
    /// The store failed, was locked, or held something other than one UTF-8 secret.
    Failure,
}

/// Relies on `keyring::Entry::get_password`: the secret stored under the entry,
/// or the store's error, told apart by whether it is `keyring::Error::NoEntry`.
#[verifier::external_body]
fn keychain_get(entry: &keyring::Entry) -> (r: Result<String, KeychainError>)
{
    entry.get_password().map_err(|e| match e {
        keyring::Error::NoEntry => KeychainError::NoEntry,
        keyring::Error::PlatformFailure(_) => KeychainError::Failure,
        keyring::Error::NoStorageAccess(_) => KeychainError::Failure,
        keyring::Error::BadEncoding(_) => KeychainError::Failure,
        keyring::Error::TooLong(_, _) => KeychainError::Failure,
        keyring::Error::Invalid(_, _) => KeychainError::Failure,
        keyring::Error::Ambiguous(_) => KeychainError::Failure,
        _ => KeychainError::Failure,
    })
}

/// Relies on `zeroize::Zeroize` for `Vec<u8>`: overwrites the bytes with zeros,
/// then clears the vector.
#[verifier::external_body]
fn wipe(key: &mut Vec<u8>)
    ensures
        final(key)@.len() == 0,
{
    zeroize::Zeroize::zeroize(key)
}

/// The service under which every key of this application is stored.
pub fn service_name() -> (r: &'static str)
    ensures
        r@ == "codes.photon.enva"@,
{
    "codes.photon.enva"
}

/// The account of a repository's key: `owner:name`.
pub fn account_of(owner: &str, repo_name: &str) -> (r: String)
    ensures
        r@ == owner@ + seq![':'] + repo_name@,
{
    let mut a = String::from_str(owner);
    a.append(":");
    a.append(repo_name);
    proof {
        reveal_strlit(":");
    }
    a
}

/// The secret stored for a key: its base64 text.
pub fn key_secret(key: &[u8]) -> (r: String)
    ensures
        r@ == base64_of(key@),
        base64_decoded(r@) == Some(key@),
{
    crate::cipher::base64_encode(key)
}

/// The key held by a stored secret: base64 of exactly 32 bytes, else `SecretStore`.
pub fn key_from_secret(secret: &str) -> (r: Result<[u8; 32], EnvaError>)
    ensures
        match base64_decoded(secret@) {
            Some(b) => if b.len() == 32 {
                r is Ok && r->Ok_0@ == b
            } else {
                r == Err::<[u8; 32], EnvaError>(EnvaError::SecretStore)
            },
            None => r == Err::<[u8; 32], EnvaError>(EnvaError::SecretStore),
        },
{
    let bytes = match crate::cipher::base64_decode(secret) {
        Some(b) => b,
        None => return Err(EnvaError::SecretStore),
    };
    if bytes.len() != 32 {
        return Err(EnvaError::SecretStore);
    }
    let mut key: [u8; 32] = [0u8; 32];
    let mut i: usize = 0;
    while i < 32
        invariant
            i <= 32,
            bytes@.len() == 32,
            key@.len() == 32,
            forall|j: int| 0 <= j < i ==> key@[j] == bytes@[j],
        decreases 32 - i,
    {
        key[i] = bytes[i];
        i = i + 1;
    }
    assert(key@ =~= bytes@);
    Ok(key)
}

/// Stores a repository's 256-bit key as `key_secret(key)` under the entry
/// `account_of(owner, repo_name)` of `service_name()`, then wipes the buffer.
pub fn save_derived_key(owner: &str, repo_name: &str, key: Vec<u8>) -> (r: Result<(), EnvaError>)
    requires
        key@.len() == 32,
    ensures
        r is Ok || r == Err::<(), EnvaError>(EnvaError::SecretStore),
{
    let mut key = key;
    let account = account_of(owner, repo_name);
    let entry = match keychain_entry(service_name(), account.as_str()) {
        Ok(e) => e,
        Err(_) => {
            wipe(&mut key);
            return Err(EnvaError::SecretStore);
        },
    };
    let secret = key_secret(key.as_slice());
    let stored = keychain_set(&entry, secret.as_str());
    wipe(&mut key);
    match stored {
        Ok(()) => Ok(()),
        Err(_) => Err(EnvaError::SecretStore),
    }
}

/// The key given by what the credential store answered: `KeyNotFound` where
/// it holds no entry, `SecretStore` where it failed or the secret is no key.
pub fn key_from_lookup(outcome: Result<String, KeychainError>) -> (r: Result<[u8; 32], EnvaError>)
    ensures
        match outcome {
            Err(KeychainError::NoEntry) => r == Err::<[u8; 32], EnvaError>(EnvaError::KeyNotFound),
            Err(KeychainError::Failure) => r == Err::<[u8; 32], EnvaError>(EnvaError::SecretStore),
            Ok(secret) => match base64_decoded(secret@) {
                Some(b) => if b.len() == 32 {
                    r is Ok && r->Ok_0@ == b
                } else {
                    r == Err::<[u8; 32], EnvaError>(EnvaError::SecretStore)
                },
                None => r == Err::<[u8; 32], EnvaError>(EnvaError::SecretStore),
            },
        },
{
    match outcome {
        Ok(secret) => key_from_secret(secret.as_str()),
        Err(KeychainError::NoEntry) => Err(EnvaError::KeyNotFound),
        Err(KeychainError::Failure) => Err(EnvaError::SecretStore),
    }
}

/// Loads a repository's key from the entry `owner:name` of the service:
/// `KeyNotFound` where the store holds none, `SecretStore` where the store fails
/// or holds no valid key.
pub fn load_derived_key(owner: &str, repo_name: &str) -> (r: Result<[u8; 32], EnvaError>)
    ensures
        r is Ok || r == Err::<[u8; 32], EnvaError>(EnvaError::KeyNotFound)
            || r == Err::<[u8; 32], EnvaError>(EnvaError::SecretStore),
{
    let account = account_of(owner, repo_name);
    let entry = match keychain_entry(service_name(), account.as_str()) {
        Ok(e) => e,
        Err(_) => return Err(EnvaError::SecretStore),
    };
    key_from_lookup(keychain_get(&entry))
}

/// Registers a password for the repository at `repo_url`: derives its key and
/// stores it. `InvalidRepoUrl` exactly where the address names no repository.
pub fn save_pwd(repo_url: &str, password: &str) -> (r: Result<(), EnvaError>)
    ensures
        github_repo_of(repo_url@) is None <==> (r is Err && is_invalid_url(r->Err_0, repo_url@)),
        r is Ok || (r is Err && is_invalid_url(r->Err_0, repo_url@))
            || r == Err::<(), EnvaError>(EnvaError::SecretStore),
{
    match parse_github_repo(repo_url) {
        None => Err(EnvaError::InvalidRepoUrl(String::from_str(repo_url))),
        Some((owner, repo_name)) => {
            let key = derive_key(owner.as_str(), repo_name.as_str(), password);
            let mut buf: Vec<u8> = Vec::new();
            let mut i: usize = 0;
            while i < 32
                invariant
                    i <= 32,
                    buf@ == key@.subrange(0, i as int),
                decreases 32 - i,
            {
                buf.push(key[i]);
                i = i + 1;
            }
            save_derived_key(owner.as_str(), repo_name.as_str(), buf)
        },
    }
}

/// Encrypts a text with the key stored for the repository at `repo_url`; the
/// envelope returned opens to the text under a 256-bit key.
pub fn encrypt_string(repo_url: &str, plaintext: &str) -> (r: Result<String, EnvaError>)
    requires
        encode_utf8(plaintext@).len() <= MAX_PLAINTEXT,
    ensures
        github_repo_of(repo_url@) is None <==> (r is Err && is_invalid_url(r->Err_0, repo_url@)),
        r is Ok ==> exists|k: Seq<u8>| k.len() == 32 && opened(k, r->Ok_0@) == Some(plaintext@),
        r is Ok ==> exists|k: Seq<u8>, n: Seq<u8>| k.len() == 32 && n.len() == 12
            && r->Ok_0@ == envelope_of(k, n, plaintext@)
            && base64_decoded(r->Ok_0@) == Some(n + aes256gcm_seal(k, n, encode_utf8(plaintext@)))
            && aes256gcm_seal(k, n, encode_utf8(plaintext@)).len() == encode_utf8(plaintext@).len() + 16,
        r is Err ==> (r is Err && is_invalid_url(r->Err_0, repo_url@))
            || r == Err::<String, EnvaError>(EnvaError::KeyNotFound)
            || r == Err::<String, EnvaError>(EnvaError::SecretStore),
{
    match parse_github_repo(repo_url) {
        None => Err(EnvaError::InvalidRepoUrl(String::from_str(repo_url))),
        Some((owner, repo_name)) => {
            let key = load_derived_key(owner.as_str(), repo_name.as_str())?;
            let nonce = crate::cipher::random_nonce();
            let env = seal_envelope(&key, &nonce, plaintext);
            assert(key@.len() == 32 && opened(key@, env@) == Some(plaintext@));
            assert(key@.len() == 32 && nonce@.len() == 12 && env@ == envelope_of(key@, nonce@, plaintext@)
                && base64_decoded(env@) == Some(nonce@ + aes256gcm_seal(key@, nonce@, encode_utf8(plaintext@)))
                && aes256gcm_seal(key@, nonce@, encode_utf8(plaintext@)).len() == encode_utf8(plaintext@).len() + 16);
            Ok(env)
        },
    }
}

/// Decrypts an envelope with the key stored for the repository at `repo_url`.
pub fn decrypt_string(repo_url: &str, encrypted_b64: &str) -> (r: Result<String, EnvaError>)
    ensures
        github_repo_of(repo_url@) is None <==> (r is Err && is_invalid_url(r->Err_0, repo_url@)),
        r is Ok ==> exists|k: Seq<u8>| k.len() == 32 && opened(k, encrypted_b64@) == Some(r->Ok_0@),
        r is Err ==> (r is Err && is_invalid_url(r->Err_0, repo_url@))
            || r == Err::<String, EnvaError>(EnvaError::KeyNotFound)
            || r == Err::<String, EnvaError>(EnvaError::SecretStore)
            || r == Err::<String, EnvaError>(EnvaError::AuthenticationFailure),
        base64_decoded(encrypted_b64@) is None || base64_decoded(encrypted_b64@)->0.len() < 28 ==> r is Err,
{
    match parse_github_repo(repo_url) {
        None => Err(EnvaError::InvalidRepoUrl(String::from_str(repo_url))),
        Some((owner, repo_name)) => {
            let key = load_derived_key(owner.as_str(), repo_name.as_str())?;
            let r = open_envelope(&key, encrypted_b64);
            assert(r is Ok ==> key@.len() == 32 && opened(key@, encrypted_b64@) == Some(r->Ok_0@));
            r
        },
    }
}

} // verus!
