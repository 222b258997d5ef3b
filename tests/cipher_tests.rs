use base64::Engine;
use enva::cipher::{decrypt, derive_key, encrypt, open_envelope, seal_envelope};
use enva::error::EnvaError;
use enva::keystore::{account_of, key_from_lookup, KeychainError, decrypt_string, encrypt_string, key_from_secret, key_secret, save_pwd};

const EXPECTED_KEY: [u8; 32] = [
    135, 161, 200, 127, 115, 52, 119, 138, 251, 46, 126, 51, 93, 3, 82, 180, 155, 76, 56, 136, 31,
    253, 9, 56, 175, 145, 224, 152, 11, 125, 181, 134,
];

fn test_key() -> [u8; 32] {
    let mut k = [0u8; 32];
    for (i, b) in k.iter_mut().enumerate() {
        *b = i as u8;
    }
    k
}

#[test]
fn derive_key_matches_pbkdf2_vector() {
    assert_eq!(derive_key("acme", "widgets", "hunter2"), EXPECTED_KEY);
}

#[test]
fn derive_key_is_deterministic() {
    assert_eq!(derive_key("acme", "widgets", "pw"), derive_key("acme", "widgets", "pw"));
}

#[test]
fn derive_key_depends_on_repository_and_password() {
    let k = derive_key("acme", "widgets", "pw");
    assert_ne!(k, derive_key("acme", "gadgets", "pw"));
    assert_ne!(k, derive_key("acme", "widgets", "pw2"));
}

#[test]
fn derive_key_accepts_empty_password() {
    assert_eq!(derive_key("acme", "widgets", ""), derive_key("acme", "widgets", ""));
}

#[test]
fn envelope_has_exact_form() {
    let nonce = [7u8; 12];
    assert_eq!(seal_envelope(&test_key(), &nonce, "KEY=1"), "BwcHBwcHBwcHBwcHRC//YV7zXs8oirYQ89I95Jy1JUHW");
}

#[test]
fn envelope_round_trip() {
    let nonce = [3u8; 12];
    for p in ["", "KEY=1", "A=b\nC=ü€"] {
        let e = seal_envelope(&test_key(), &nonce, p);
        assert_ne!(e, p);
        assert_eq!(open_envelope(&test_key(), &e), Ok(p.to_string()));
    }
}

#[test]
fn envelope_opens_known_text() {
    assert_eq!(
        open_envelope(&test_key(), "BwcHBwcHBwcHBwcHRC//YV7zXs8oirYQ89I95Jy1JUHW"),
        Ok("KEY=1".to_string())
    );
}

#[test]
fn every_flipped_bit_is_detected() {
    let e = seal_envelope(&test_key(), &[9u8; 12], "KEY=1");
    let data = base64::engine::general_purpose::STANDARD.decode(&e).unwrap();
    for i in 0..data.len() {
        for bit in 0..8 {
            let mut d = data.clone();
            d[i] ^= 1 << bit;
            let t = base64::engine::general_purpose::STANDARD.encode(&d);
            assert_eq!(open_envelope(&test_key(), &t), Err(EnvaError::AuthenticationFailure));
        }
    }
}

#[test]
fn wrong_key_is_detected() {
    let e = seal_envelope(&test_key(), &[1u8; 12], "KEY=1");
    assert_eq!(open_envelope(&EXPECTED_KEY, &e), Err(EnvaError::AuthenticationFailure));
}

#[test]
fn malformed_envelopes_fail() {
    assert_eq!(open_envelope(&test_key(), "not base64!"), Err(EnvaError::AuthenticationFailure));
    assert_eq!(open_envelope(&test_key(), "AAAA"), Err(EnvaError::AuthenticationFailure));
    assert_eq!(open_envelope(&test_key(), ""), Err(EnvaError::AuthenticationFailure));
}

#[test]
fn raw_encrypt_decrypt_round_trip() {
    let (c, n) = encrypt(&test_key(), b"KEY=1");
    assert_eq!(c.len(), 5 + 16);
    assert_eq!(decrypt(&test_key(), &c, &n), Ok(b"KEY=1".to_vec()));
}

#[test]
fn fresh_nonces_differ() {
    let (c1, n1) = encrypt(&test_key(), b"same");
    let (c2, n2) = encrypt(&test_key(), b"same");
    assert_ne!(n1, n2);
    assert_ne!(c1, c2);
}

#[test]
fn raw_decrypt_rejects_tampering() {
    let (mut c, n) = encrypt(&test_key(), b"KEY=1");
    c[0] ^= 1;
    assert_eq!(decrypt(&test_key(), &c, &n), Err(EnvaError::AuthenticationFailure));
}

#[test]
fn account_is_owner_colon_name() {
    assert_eq!(account_of("acme", "widgets"), "acme:widgets");
}

#[test]
fn key_secret_is_base64() {
    assert_eq!(key_secret(&test_key()), "AAECAwQFBgcICQoLDA0ODxAREhMUFRYXGBkaGxwdHh8=");
    assert_eq!(key_from_secret("AAECAwQFBgcICQoLDA0ODxAREhMUFRYXGBkaGxwdHh8="), Ok(test_key()));
}

#[test]
fn key_from_secret_rejects_bad_material() {
    assert_eq!(key_from_secret("AAAA"), Err(EnvaError::SecretStore));
    assert_eq!(key_from_secret("%%%"), Err(EnvaError::SecretStore));
}

#[test]
fn invalid_url_is_rejected_before_the_secret_store() {
    assert_eq!(save_pwd("https://gitlab.com/a/b", "pw"), Err(EnvaError::InvalidRepoUrl("https://gitlab.com/a/b".to_string())));
    assert_eq!(encrypt_string("nonsense", "x"), Err(EnvaError::InvalidRepoUrl("nonsense".to_string())));
    assert_eq!(decrypt_string("nonsense", "x"), Err(EnvaError::InvalidRepoUrl("nonsense".to_string())));
}

#[test]
fn envelope_decodes_to_nonce_and_sealed_bytes() {
    let nonce = [5u8; 12];
    let e = seal_envelope(&test_key(), &nonce, "KEY=1");
    let d = base64::engine::general_purpose::STANDARD.decode(&e).unwrap();
    assert_eq!(d.len(), 12 + 5 + 16);
    assert_eq!(&d[..12], &nonce);
}

#[test]
fn short_ciphertext_never_opens() {
    assert_eq!(decrypt(&test_key(), &[0u8; 15], &[0u8; 12]), Err(EnvaError::AuthenticationFailure));
}

#[test]
fn service_name_is_fixed() {
    assert_eq!(enva::keystore::service_name(), "codes.photon.enva");
}

#[test]
fn envelope_shorter_than_nonce_and_tag_fails() {
    let d = [0u8; 27];
    let t = base64::engine::general_purpose::STANDARD.encode(d);
    assert_eq!(open_envelope(&test_key(), &t), Err(EnvaError::AuthenticationFailure));
}

#[test]
fn lookup_outcomes_map_to_errors() {
    assert_eq!(key_from_lookup(Err(KeychainError::NoEntry)), Err(EnvaError::KeyNotFound));
    assert_eq!(key_from_lookup(Err(KeychainError::Failure)), Err(EnvaError::SecretStore));
    assert_eq!(
        key_from_lookup(Ok("AAECAwQFBgcICQoLDA0ODxAREhMUFRYXGBkaGxwdHh8=".to_string())),
        Ok(test_key())
    );
    assert_eq!(key_from_lookup(Ok("AAAA".to_string())), Err(EnvaError::SecretStore));
}

#[test]
fn invalid_url_message_names_the_address() {
    assert_eq!(
        EnvaError::InvalidRepoUrl("nonsense".to_string()).message(),
        "Failed to parse repo URL: nonsense"
    );
}
