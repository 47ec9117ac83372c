use tee_demo::aead::encrypt;
use tee_demo::frame::{ERR_DECRYPT_FAILED, ERR_KEY_EXPIRED, ERR_KEY_UNKNOWN};
use tee_demo::key_store::{DecryptErr, KeyStore, StoredKey, RETENTION};
use tee_demo::outside::b64_encode;
use tee_demo::sealing::{
    seal, seal_request, seal_with, unseal, unseal_request, KeyPolicy, SealKey, KEYNAME_SEAL,
};

fn sample() -> KeyStore {
    KeyStore {
        current_version: 7,
        keys: vec![
            StoredKey { version: 6, public_key: vec![1, 2, 3], private_key: vec![4] },
            StoredKey { version: 7, public_key: vec![], private_key: vec![5, 6] },
        ],
    }
}

fn same(a: &KeyStore, b: &KeyStore) -> bool {
    a.current_version == b.current_version
        && a.keys.len() == b.keys.len()
        && a.keys.iter().zip(b.keys.iter()).all(|(x, y)| {
            x.version == y.version
                && x.public_key == y.public_key
                && x.private_key == y.private_key
        })
}

fn err<T>(r: Result<T, String>) -> String {
    match r {
        Ok(_) => panic!("no error"),
        Err(e) => e,
    }
}

#[test]
fn new_store_has_version_one() {
    let store = KeyStore::new().unwrap();
    assert_eq!(store.current_version, 1);
    assert_eq!(store.keys.len(), 1);
    assert_eq!(store.current().unwrap().version, 1);
    assert_eq!(store.current().unwrap().public_key.len(), 65);
    assert_eq!(store.current().unwrap().private_key.len(), 32);
}

#[test]
fn rotation_keeps_two() {
    let mut store = KeyStore::new().unwrap();
    for v in 2..6u64 {
        let before = store.current().unwrap().public_key.clone();
        let key = store.rotate().unwrap();
        assert_eq!(key.version, v);
        assert_ne!(key.public_key, before);
        assert_eq!(store.keys.len(), RETENTION);
        assert_eq!(store.keys[0].version, v - 1);
        assert_eq!(store.keys[0].public_key, before);
        assert_eq!(store.current().unwrap().version, v);
    }
    let mut exact = sample();
    exact.rotate_to(vec![9], vec![8]);
    assert_eq!(exact.current_version, 8);
    assert_eq!(exact.keys.len(), 2);
    assert_eq!(exact.keys[1].public_key, vec![9]);
    assert_eq!(exact.keys[1].private_key, vec![8]);
    assert_eq!(exact.keys[0].version, 7);
}

#[test]
fn lookup_tells_expired_from_unknown() {
    let mut store = KeyStore::new().unwrap();
    assert_eq!(store.lookup(1).unwrap().version, 1);
    assert!(matches!(store.lookup(0), Err(DecryptErr::Unknown)));
    assert!(matches!(store.lookup(2), Err(DecryptErr::Unknown)));
    store.rotate().unwrap();
    assert_eq!(store.lookup(1).unwrap().version, 1);
    assert!(matches!(store.lookup(0), Err(DecryptErr::Expired)));
    store.rotate().unwrap();
    assert!(matches!(store.lookup(1), Err(DecryptErr::Expired)));
    assert_eq!(store.lookup(2).unwrap().version, 2);
    assert_eq!(store.lookup(3).unwrap().version, 3);
    assert!(matches!(store.lookup(4), Err(DecryptErr::Unknown)));
    assert!(matches!(store.lookup(u64::MAX), Err(DecryptErr::Unknown)));
}

#[test]
fn ciphertext_survives_one_rotation() {
    let mut store = KeyStore::new().unwrap();
    let pk = store.current().unwrap().public_key.clone();
    let ct = encrypt(&pk, b"hello", b"aad").unwrap();
    assert_eq!(store.decrypt(1, &ct, b"aad").unwrap(), b"hello");
    assert_eq!(store.decrypt(1, &ct, b"other"), Err(DecryptErr::Failed));
    store.rotate().unwrap();
    assert_eq!(store.decrypt(1, &ct, b"aad").unwrap(), b"hello");
    assert_eq!(store.decrypt(2, &ct, b"aad"), Err(DecryptErr::Failed));
    store.rotate().unwrap();
    assert_eq!(store.decrypt(1, &ct, b"aad"), Err(DecryptErr::Expired));
    assert_eq!(store.decrypt(9, &ct, b"aad"), Err(DecryptErr::Unknown));
}

#[test]
fn errors_have_codes_and_words() {
    assert_eq!(DecryptErr::Expired.code(), ERR_KEY_EXPIRED);
    assert_eq!(DecryptErr::Unknown.code(), ERR_KEY_UNKNOWN);
    assert_eq!(DecryptErr::Failed.code(), ERR_DECRYPT_FAILED);
    assert_eq!(ERR_KEY_EXPIRED, "key_expired");
    assert_eq!(ERR_KEY_UNKNOWN, "key_unknown");
    assert_eq!(ERR_DECRYPT_FAILED, "decrypt_failed");
    assert_eq!(DecryptErr::Expired.message(), "key version expired (retention=2)");
    assert_eq!(DecryptErr::Unknown.message(), "key version unknown");
    assert_eq!(DecryptErr::Failed.message(), "hpke decrypt failed");
}

#[test]
fn keyring_lists_the_public_keys() {
    assert_eq!(
        sample().keyring_json(),
        r#"{"v":1,"current_version":7,"keys":[{"version":6,"public_key":"AQID","algorithm":"hpke-p256"},{"version":7,"public_key":"","algorithm":"hpke-p256"}]}"#
    );
    let empty = KeyStore { current_version: 0, keys: vec![] };
    assert_eq!(empty.keyring_json(), r#"{"v":1,"current_version":0,"keys":[]}"#);
    let store = KeyStore::new().unwrap();
    assert!(!store
        .keyring_json()
        .contains(&b64_encode(&store.keys[0].private_key)));
}

#[test]
fn store_is_read_back_from_its_bytes() {
    let store = sample();
    let bytes = store.encode();
    assert_eq!(
        bytes,
        [
            7, 0, 0, 0, 0, 0, 0, 0, 2, 6, 0, 0, 0, 0, 0, 0, 0, 3, 0, 1, 2, 3, 1, 0, 4, 7, 0, 0, 0,
            0, 0, 0, 0, 0, 0, 2, 0, 5, 6
        ]
    );
    assert!(same(&KeyStore::decode(&bytes).unwrap(), &store));
    let mut longer = bytes.clone();
    longer.extend_from_slice(&[1, 2, 3]);
    assert!(same(&KeyStore::decode(&longer).unwrap(), &store));
    let fresh = KeyStore::new().unwrap();
    assert!(same(&KeyStore::decode(&fresh.encode()).unwrap(), &fresh));
    assert!(same(&fresh.clone(), &fresh));
}

#[test]
fn cut_stores_are_refused() {
    let bytes = sample().encode();
    for n in 0..9 {
        assert_eq!(err(KeyStore::decode(&bytes[..n])), "keystore too short");
    }
    for n in 9..19 {
        assert_eq!(err(KeyStore::decode(&bytes[..n])), "truncated keystore");
    }
    for n in 19..24 {
        assert_eq!(err(KeyStore::decode(&bytes[..n])), "truncated pubkey");
    }
    assert_eq!(err(KeyStore::decode(&bytes[..24])), "truncated seckey");
    assert_eq!(err(KeyStore::decode(&bytes[..25])), "truncated keystore");
}

fn seal_key() -> SealKey {
    SealKey { key: [7; 16], keyid: [8; 32], isvsvn: 0x0102, cpusvn: [9; 16] }
}

#[test]
fn sealed_store_is_unsealed() {
    let store = sample();
    let k = seal_key();
    let blob = seal_with(&store, &k, &[3; 12]).unwrap();
    assert_eq!(&blob[..4], b"TDK1");
    assert_eq!(&blob[4..36], &[8; 32]);
    assert_eq!(&blob[36..38], &[2, 1]);
    assert_eq!(&blob[38..54], &[9; 16]);
    assert_eq!(&blob[54..66], &[3; 12]);
    assert_eq!(blob.len(), 66 + store.encode().len() + 16);
    assert_ne!(&blob[66..66 + store.encode().len()], &store.encode()[..]);
    let req = unseal_request(&blob).unwrap();
    assert_eq!(req.keyname, KEYNAME_SEAL);
    assert_eq!(req.keypolicy, KeyPolicy::MrEnclave);
    assert_eq!(req.isvsvn, 0x0102);
    assert_eq!(req.cpusvn, [9; 16]);
    assert_eq!(req.keyid, [8; 32]);
    assert_eq!(req.attributemask, [u64::MAX; 2]);
    assert_eq!(req.miscmask, u32::MAX);
    assert!(same(&unseal(&blob, Some(&k.key)).unwrap(), &store));
}

#[test]
fn sealing_draws_a_fresh_nonce() {
    let store = sample();
    let k = seal_key();
    let a = seal(&store, Some(&k)).unwrap();
    let b = seal(&store, Some(&k)).unwrap();
    assert_ne!(&a[54..66], &b[54..66]);
    assert_ne!(&a[54..66], &[0; 12]);
    assert_eq!(a.len(), 66 + store.encode().len() + 16);
    assert!(same(&unseal(&a, Some(&k.key)).unwrap(), &store));
    assert!(same(&unseal(&b, Some(&k.key)).unwrap(), &store));
}

#[test]
fn sealing_needs_a_key() {
    assert_eq!(err(seal(&sample(), None)), "sealing requires SGX");
    assert_eq!(err(unseal(&[], None)), "sealing requires SGX");
}

#[test]
fn blobs_that_are_none_are_refused() {
    let k = seal_key();
    let blob = seal_with(&sample(), &k, &[3; 12]).unwrap();
    assert_eq!(err(unseal(&blob[..81], Some(&k.key))), "invalid sealed blob");
    assert_eq!(err(unseal_request(&blob[..81])), "invalid sealed blob");
    let mut other = blob.clone();
    other[0] = b'X';
    assert_eq!(err(unseal(&other, Some(&k.key))), "invalid sealed blob");
    let wrong = "unseal failed (wrong MRENCLAVE / corrupt blob)";
    assert_eq!(err(unseal(&blob, Some(&[6; 16]))), wrong);
    let mut flipped = blob.clone();
    flipped[70] ^= 1;
    assert_eq!(err(unseal(&flipped, Some(&k.key))), wrong);
}

#[test]
fn seal_request_is_bound_to_the_enclave() {
    let req = seal_request(5, [1; 16], [2; 32]);
    assert_eq!(req.keyname, 4);
    assert_eq!(req.keypolicy, KeyPolicy::MrEnclave);
    assert_eq!(req.isvsvn, 5);
    assert_eq!(req.cpusvn, [1; 16]);
    assert_eq!(req.keyid, [2; 32]);
    assert_eq!(req.attributemask, [u64::MAX, u64::MAX]);
    assert_eq!(req.miscmask, u32::MAX);
}
