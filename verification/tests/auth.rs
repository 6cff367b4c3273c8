use mili_rust::auth::{
    auth_digest, check_login_key, decrypt_login_key, offline_uuid, session_answer, session_hash,
    uuid_from_digest, LoginKeyError, SessionAnswer,
};
use rsa::pkcs8::EncodePrivateKey;
use rsa::{Pkcs1v15Encrypt, RsaPrivateKey, RsaPublicKey};
use sha1::{Digest, Sha1};
use sha2::Sha256;

#[test]
fn auth_digest_usernames() {
    assert_eq!(
        auth_digest(&Sha1::digest("Notch")),
        "4ed1f46bbe04bc756bcb17c0c7ce3e4632f06a48"
    );
    assert_eq!(
        auth_digest(&Sha1::digest("jeb_")),
        "-7c9d5b0044c130109a5d7b5fb5c317c02b4e28c1"
    );
    assert_eq!(
        auth_digest(&Sha1::digest("simon")),
        "88e16a1019277b15d58faf0541e11910eb756f6"
    );
}

#[test]
fn auth_digest_edge_values() {
    assert_eq!(auth_digest(&[]), "0");
    assert_eq!(auth_digest(&[0, 0]), "0");
    assert_eq!(auth_digest(&[0xff]), "-1");
    assert_eq!(auth_digest(&[0x80]), "-80");
    assert_eq!(auth_digest(&[0x00, 0x7f]), "7f");
    assert_eq!(auth_digest(&[0xff, 0x00]), "-100");
}

#[test]
fn offline_uuid_is_first_half_of_sha256() {
    let digest = Sha256::digest("Steve");
    let mut first = [0u8; 16];
    first.copy_from_slice(&digest[..16]);
    assert_eq!(offline_uuid("Steve"), u128::from_be_bytes(first));
    assert_ne!(offline_uuid("Steve"), offline_uuid("Alex"));
}

#[test]
fn uuid_from_digest_reads_big_endian() {
    let mut bytes = vec![0u8; 20];
    bytes[15] = 1;
    bytes[0] = 2;
    assert_eq!(uuid_from_digest(&bytes), (2u128 << 120) | 1);
}

#[test]
fn session_hash_of_secret_and_key() {
    // The hash is taken over the secret followed by the key.
    assert_eq!(session_hash(b"No", b"tch"), "4ed1f46bbe04bc756bcb17c0c7ce3e4632f06a48");
    assert_eq!(session_hash(b"jeb_", b""), "-7c9d5b0044c130109a5d7b5fb5c317c02b4e28c1");
    assert_eq!(session_hash(b"", b"simon"), "88e16a1019277b15d58faf0541e11910eb756f6");
}

#[test]
fn login_key_checks() {
    let sent = [7u8; 4];
    let secret = vec![1u8; 16];
    assert_eq!(check_login_key(&sent, Some(secret.clone()), Some(sent.to_vec())), Ok(secret.clone()));
    assert_eq!(check_login_key(&sent, None, None), Err(LoginKeyError::SecretNotDecrypted));
    assert_eq!(check_login_key(&sent, Some(secret.clone()), None), Err(LoginKeyError::TokenNotDecrypted));
    assert_eq!(check_login_key(&sent, Some(secret), Some(vec![7u8; 3])), Err(LoginKeyError::TokenMismatch));
    assert_eq!(check_login_key(&sent, Some(vec![1u8; 15]), Some(sent.to_vec())), Err(LoginKeyError::SecretLength));
}

#[test]
fn login_key_decryption() {
    let mut rng = rand::thread_rng();
    let key = RsaPrivateKey::new(&mut rng, 512).expect("a key");
    let public = RsaPublicKey::from(&key);
    let sent = [9u8, 8, 7, 6];
    let secret = [3u8; 16];
    let enc_secret = public.encrypt(&mut rng, Pkcs1v15Encrypt, &secret).unwrap();
    let enc_token = public.encrypt(&mut rng, Pkcs1v15Encrypt, &sent).unwrap();
    let der = key.to_pkcs8_der().unwrap();
    let der = der.as_bytes();
    assert_eq!(decrypt_login_key(der, &sent, &enc_secret, &enc_token), Ok(secret.to_vec()));
    assert_eq!(
        decrypt_login_key(der, &[1, 2, 3, 4], &enc_secret, &enc_token),
        Err(LoginKeyError::TokenMismatch)
    );
    // The two ciphertexts swapped: the token decrypts to the secret.
    assert_eq!(decrypt_login_key(der, &sent, &enc_token, &enc_secret), Err(LoginKeyError::TokenMismatch));
    assert_eq!(
        decrypt_login_key(der, &sent, &[0u8; 3], &enc_token),
        Err(LoginKeyError::SecretNotDecrypted)
    );
    assert_eq!(
        decrypt_login_key(der, &sent, &enc_secret, &[0u8; 3]),
        Err(LoginKeyError::TokenNotDecrypted)
    );
    assert_eq!(decrypt_login_key(&[1, 2, 3], &sent, &enc_secret, &enc_token), Err(LoginKeyError::SecretNotDecrypted));
}

#[test]
fn session_server_answers() {
    assert_eq!(session_answer(200), SessionAnswer::Verified);
    assert_eq!(session_answer(204), SessionAnswer::Unverified);
    assert_eq!(session_answer(500), SessionAnswer::Failed);
    assert_eq!(session_answer(404), SessionAnswer::Failed);
}
