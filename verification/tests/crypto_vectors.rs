use matter::crypto::{hkdf_sha256, hmac_sha256, sha256};

fn hex(s: &str) -> Vec<u8> {
    let b = s.as_bytes();
    let mut out = Vec::new();
    let mut i = 0;
    while i + 1 < b.len() {
        let d = |c: u8| -> u8 {
            match c {
                b'0'..=b'9' => c - b'0',
                b'a'..=b'f' => c - b'a' + 10,
                _ => panic!("bad hex"),
            }
        };
        out.push(d(b[i]) * 16 + d(b[i + 1]));
        i += 2;
    }
    out
}

#[test]
fn test_sha256_abc() {
    let r = sha256(b"abc");
    assert_eq!(
        r,
        hex("ba7816bf8f01cfea414140de5dae2223b00361a396177a9cb410ff61f20015ad")
    );
}

#[test]
fn test_hmac_sha256_rfc4231_case1() {
    let key = vec![0x0b; 20];
    let r = hmac_sha256(&key, b"Hi There");
    assert_eq!(
        r,
        hex("b0344c61d8db38535ca8afceaf0bf12b881dc200c9833da726e9376c2e32cff7")
    );
}

#[test]
fn test_hmac_sha256_rfc4231_case2() {
    let r = hmac_sha256(b"Jefe", b"what do ya want for nothing?");
    assert_eq!(
        r,
        hex("5bdcc146bf60754e6a042426089575c75a003f089d2739839dec58b964ec3843")
    );
}

#[test]
fn test_hkdf_sha256_rfc5869_case1() {
    let ikm = vec![0x0b; 22];
    let salt = hex("000102030405060708090a0b0c");
    let info = hex("f0f1f2f3f4f5f6f7f8f9");
    let mut okm = vec![0u8; 42];
    hkdf_sha256(&salt, &ikm, &info, &mut okm);
    assert_eq!(
        okm,
        hex("3cb25f25faacd57a90434f64d0362f2a2d2d0a90cf1a5a4c5db02d56ecc4c5bf34007208d5b887185865")
    );
}
