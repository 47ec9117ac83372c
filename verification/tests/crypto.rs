use tee_demo::aead::{aad_json, decrypt, encrypt, generate_keypair, HPKE_INFO};
use tee_demo::outside::{b64_decode, b64_encode};

#[test]
fn roundtrip() {
    let (pk, sk) = generate_keypair().unwrap();
    let aad = aad_json(1, 42, "compute", 5);
    let pt = br#"{"x":2,"y":3}"#;
    let ct = encrypt(&pk, pt, aad.as_bytes()).unwrap();
    let out = decrypt(&sk, &ct, aad.as_bytes()).unwrap();
    assert_eq!(out, pt);
    assert!(decrypt(&sk, &ct, b"tampered").is_err());
}

#[test]
fn aad_json_is_canonical() {
    assert_eq!(
        aad_json(1, 42, "compute", 5),
        r#"{"v":1,"id":42,"op":"compute","key_version":5}"#
    );
    assert_eq!(
        aad_json(65535, u64::MAX, "", 0),
        r#"{"v":65535,"id":18446744073709551615,"op":"","key_version":0}"#
    );
}

#[test]
fn key_pairs_have_the_lengths_of_the_curve() {
    let (pk, sk) = generate_keypair().unwrap();
    assert_eq!(pk.len(), 65);
    assert_eq!(pk[0], 4);
    assert_eq!(sk.len(), 32);
    let (pk2, sk2) = generate_keypair().unwrap();
    assert_ne!(pk, pk2);
    assert_ne!(sk, sk2);
}

#[test]
fn ciphertext_has_its_layout() {
    let (pk, sk) = generate_keypair().unwrap();
    let ct = encrypt(&pk, b"", b"").unwrap();
    assert_eq!(ct.len(), 2 + 65 + 16);
    assert_eq!(&ct[..2], &[65, 0]);
    assert_eq!(decrypt(&sk, &ct, b"").unwrap(), b"");
    let longer = encrypt(&pk, b"abc", b"").unwrap();
    assert_eq!(longer.len(), 2 + 65 + 3 + 16);
    assert_ne!(&longer[67..70], b"abc");
}

#[test]
fn encrypt_refuses_what_is_no_key() {
    assert_eq!(
        encrypt(&[4u8; 3], b"x", b"").unwrap_err(),
        "invalid hpke public key: Incorrect input length. Expected 65 bytes. Got 3."
    );
    assert_eq!(
        encrypt(&[0u8; 65], b"x", b"").unwrap_err(),
        "invalid hpke public key: Input value is invalid"
    );
}

#[test]
fn decrypt_refuses_what_is_no_ciphertext() {
    let (pk, sk) = generate_keypair().unwrap();
    assert_eq!(decrypt(&sk, &[], b"").unwrap_err(), "ct too short");
    assert_eq!(decrypt(&sk, &[1], b"").unwrap_err(), "ct too short");
    assert_eq!(decrypt(&sk, &[65, 0, 1], b"").unwrap_err(), "ct truncated");
    assert_eq!(decrypt(&sk, &[0, 1, 1], b"").unwrap_err(), "ct truncated");
    let ct = encrypt(&pk, b"abc", b"").unwrap();
    assert_eq!(
        decrypt(&[1u8; 31], &ct, b"").unwrap_err(),
        "invalid hpke private key: Incorrect input length. Expected 32 bytes. Got 31."
    );
    assert_eq!(
        decrypt(&[0u8; 32], &ct, b"").unwrap_err(),
        "invalid hpke private key: Input value is invalid"
    );
    assert_eq!(
        decrypt(&sk, &[0, 0, 1, 2, 3], b"").unwrap_err(),
        "invalid hpke encapsulated key: Incorrect input length. Expected 65 bytes. Got 0."
    );
    let mut bad = ct.clone();
    for b in bad[2..67].iter_mut() {
        *b = 0;
    }
    assert_eq!(
        decrypt(&sk, &bad, b"").unwrap_err(),
        "invalid hpke encapsulated key: Input value is invalid"
    );
    let mut flipped = ct.clone();
    let last = flipped.len() - 1;
    flipped[last] ^= 1;
    assert_eq!(
        decrypt(&sk, &flipped, b"").unwrap_err(),
        "hpke open: Failed to open ciphertext"
    );
    let (_, other) = generate_keypair().unwrap();
    assert_eq!(
        decrypt(&other, &ct, b"").unwrap_err(),
        "hpke open: Failed to open ciphertext"
    );
}

#[test]
fn info_is_fixed() {
    assert_eq!(HPKE_INFO.as_bytes(), b"tee-demo/hpke-p256/v1");
}

#[test]
fn base64_reads_back_what_it_writes() {
    assert_eq!(b64_encode(b""), "");
    assert_eq!(b64_encode(b"f"), "Zg==");
    assert_eq!(b64_encode(b"foobar"), "Zm9vYmFy");
    assert_eq!(b64_decode("Zm9vYmFy").unwrap(), b"foobar");
    assert_eq!(b64_decode("Zg==").unwrap(), b"f");
    assert!(b64_decode("Zg").is_err());
    assert_eq!(
        b64_decode("a!bc").unwrap_err(),
        "Invalid symbol 33, offset 1."
    );
    let all: Vec<u8> = (0..=255).collect();
    assert_eq!(b64_decode(&b64_encode(&all)).unwrap(), all);
    for n in 0..20 {
        assert_eq!(b64_encode(&all[..n]).len(), 4 * ((n + 2) / 3));
    }
}
