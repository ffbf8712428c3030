use psk_broker::chacha20poly1305_ietf as ietf;
use psk_broker::xchacha20poly1305_ietf as xietf;

const PLAINTEXT: &[u8] = b"post-quantum cryptography is very important";
const AD: &[u8] = b"the encrypted message is very important";

const IETF_CT: [u8; 59] = [
    239, 104, 148, 202, 120, 32, 77, 27, 246, 206, 226, 17, 83, 78, 122, 116, 187, 123, 70, 199,
    58, 130, 21, 1, 107, 230, 58, 77, 18, 152, 31, 159, 80, 151, 72, 27, 236, 137, 60, 55, 180,
    31, 71, 97, 199, 12, 60, 155, 70, 221, 225, 110, 132, 191, 8, 114, 85, 4, 25,
];

const X_CT: [u8; 83] = [
    0, 0, 0, 0, 0, 0, 0, 0, 0, 0, 0, 0, 0, 0, 0, 0, 0, 0, 0, 0, 0, 0, 0, 0, 8, 241, 229, 253, 200,
    81, 248, 30, 183, 149, 134, 168, 149, 87, 109, 49, 159, 108, 206, 89, 51, 232, 232, 197, 163,
    253, 254, 208, 73, 76, 253, 13, 247, 162, 133, 184, 177, 44, 73, 138, 176, 193, 61, 248, 61,
    183, 164, 192, 214, 168, 4, 1, 62, 243, 36, 48, 149, 164, 6,
];

#[test]
fn ietf_encrypt_known_vector() {
    let mut ct = [0u8; 43 + ietf::TAG_LEN];
    ietf::encrypt(&mut ct, &[0u8; ietf::KEY_LEN], &[0u8; ietf::NONCE_LEN], AD, PLAINTEXT).unwrap();
    assert_eq!(ct, IETF_CT);
}

#[test]
fn ietf_decrypt_known_vector() {
    let mut pt = [0u8; 43];
    ietf::decrypt(&mut pt, &[0u8; ietf::KEY_LEN], &[0u8; ietf::NONCE_LEN], AD, &IETF_CT).unwrap();
    assert_eq!(&pt[..], PLAINTEXT);
}

#[test]
fn ietf_decrypt_rejects_tampering() {
    let mut ct = IETF_CT;
    ct[3] ^= 1;
    let mut pt = [5u8; 43];
    assert_eq!(
        ietf::decrypt(&mut pt, &[0u8; 32], &[0u8; 12], AD, &ct),
        Err(ietf::AeadError)
    );
    assert_eq!(pt, [5u8; 43]);
}

#[test]
fn xchacha_encrypt_known_vector() {
    let mut ct = [0u8; xietf::NONCE_LEN + 43 + xietf::TAG_LEN];
    xietf::encrypt(&mut ct, &[0u8; xietf::KEY_LEN], &[0u8; xietf::NONCE_LEN], AD, PLAINTEXT).unwrap();
    assert_eq!(ct, X_CT);
}

#[test]
fn xchacha_decrypt_known_vector() {
    let mut pt = [0u8; 43];
    xietf::decrypt(&mut pt, &[0u8; xietf::KEY_LEN], AD, &X_CT).unwrap();
    assert_eq!(&pt[..], PLAINTEXT);
}

#[test]
fn xchacha_rejects_short_key_and_bad_ad() {
    let mut ct = [0u8; 83];
    assert!(xietf::encrypt(&mut ct, &[0u8; 31], &[0u8; 24], AD, PLAINTEXT).is_err());
    assert_eq!(ct, [0u8; 83]);
    let mut pt = [0u8; 43];
    assert!(xietf::decrypt(&mut pt, &[0u8; 32], b"other", &X_CT).is_err());
}
