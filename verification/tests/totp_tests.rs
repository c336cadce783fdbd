use matrixkit::base32::base32_decode;
use matrixkit::sha1::{hmac_sha1, sha1};
use matrixkit::totp::{pct_decode, totp, Konto};

// RFC 6238 Appendix B: secret ASCII "12345678901234567890" (SHA1).
fn rfc_secret() -> Vec<u8> {
    b"12345678901234567890".to_vec()
}

#[test]
fn rfc6238_testvektoren() {
    assert_eq!(totp(&rfc_secret(), 59, 30, 8), "94287082");
    assert_eq!(totp(&rfc_secret(), 1_111_111_109, 30, 8), "07081804");
    assert_eq!(totp(&rfc_secret(), 1_234_567_890, 30, 8), "89005924");
}

#[test]
fn base32_rfc4648() {
    let dek = base32_decode("GEZDGNBVGY3TQOJQGEZDGNBVGY3TQOJQ").unwrap();
    assert_eq!(dek, rfc_secret());
    assert!(base32_decode("8901").is_none());
}

#[test]
fn konto_aus_base32_liefert_rfc_code() {
    let k = Konto::neu("Test", "RFC", "GEZDGNBVGY3TQOJQGEZDGNBVGY3TQOJQ", 8, 30).unwrap();
    assert_eq!(k.code(59), "94287082");
}

#[test]
fn otpauth_uri_wird_geparst() {
    let k = Konto::aus_eingabe(
        "otpauth://totp/ACME:alice?secret=GEZDGNBVGY3TQOJQGEZDGNBVGY3TQOJQ&issuer=ACME&digits=8",
    )
    .unwrap();
    assert_eq!(k.issuer, "ACME");
    assert_eq!(k.name, "alice");
    assert_eq!(k.code(59), "94287082");
}

#[test]
fn sha1_rfc3174_vektoren() {
    let hex = |b: &[u8]| b.iter().map(|x| format!("{:02x}", x)).collect::<String>();
    assert_eq!(hex(&sha1(b"abc")), "a9993e364706816aba3e25717850c26c9cd0d89d");
    assert_eq!(hex(&sha1(b"")), "da39a3ee5e6b4b0d3255bfef95601890afd80709");
    assert_eq!(
        hex(&sha1(b"abcdbcdecdefdefgefghfghighijhijkijkljklmklmnlmnomnopnopq")),
        "84983e441c3bd26ebaae4aa1f95129e5e54670f1"
    );
}

#[test]
fn hmac_rfc2202_vektoren() {
    let hex = |b: &[u8]| b.iter().map(|x| format!("{:02x}", x)).collect::<String>();
    assert_eq!(hex(&hmac_sha1(b"Jefe", b"what do ya want for nothing?")), "effcdf6ae5eb2fa2d27416d5f184df9c259a7c79");
    // key longer than the block: hashed first
    let key = vec![0xaau8; 80];
    assert_eq!(
        hex(&hmac_sha1(&key, b"Test Using Larger Than Block-Size Key - Hash Key First")),
        "aa4ae5e15272d00e95705637ce8a3b55ed402112"
    );
}

#[test]
fn base32_klein_leer_und_padding() {
    assert_eq!(base32_decode("gezd gnbv=").unwrap(), b"12345".to_vec());
    assert!(base32_decode("").is_none());
    assert!(base32_decode("A").is_none());
    assert_eq!(base32_decode("ME").unwrap(), b"a".to_vec());
}

#[test]
fn totp_stellen_und_periode() {
    // six digits keep leading zeros; a period of 0 counts as 1
    assert_eq!(totp(&rfc_secret(), 1_111_111_109, 30, 6), "081804");
    assert_eq!(totp(&rfc_secret(), 59, 0, 6), totp(&rfc_secret(), 59, 1, 6));
    assert_eq!(totp(&rfc_secret(), 59, 30, 0), "0");
}

#[test]
fn prozent_dekodierung() {
    assert_eq!(pct_decode("ACME%20Corp"), "ACME Corp");
    assert_eq!(pct_decode("100%"), "100%");
    assert_eq!(pct_decode("%zz"), "%zz");
    assert_eq!(pct_decode("%+a"), "\n");
    assert_eq!(pct_decode("%FF"), "\u{FFFD}");
}

#[test]
fn konto_anzeige_und_roher_schluessel() {
    let k = Konto::aus_eingabe("  gezd gnbv  ").unwrap();
    assert_eq!(k.name, "Konto");
    assert_eq!(k.issuer, "");
    assert_eq!(k.secret_b32, "gezdgnbv");
    assert_eq!(k.stellen, 6);
    assert_eq!(k.periode, 30);
    assert_eq!(k.issuer_oder_name(), "Konto");
    let k = Konto::neu(" alice ", " ACME ", "GEZDGNBV", 6, 30).unwrap();
    assert_eq!(k.issuer_oder_name(), "ACME · alice");
    let k = Konto::neu("Konto", "ACME", "GEZDGNBV", 6, 30).unwrap();
    assert_eq!(k.issuer_oder_name(), "ACME");
    assert!(Konto::neu("x", "y", "1111", 6, 30).is_none());
    let k = Konto::aus_eingabe("otpauth://totp/Bank%3Abob?secret=GEZDGNBV&digits=x&period=60").unwrap();
    assert_eq!(k.issuer, "Bank");
    assert_eq!(k.name, "bob");
    assert_eq!(k.stellen, 6);
    assert_eq!(k.periode, 60);
}

#[test]
fn rfc4648_testvektoren_mit_und_ohne_fuellung() {
    let faelle: [(&str, &[u8]); 6] = [
        ("MY======", b"f"),
        ("MZXQ====", b"fo"),
        ("MZXW6===", b"foo"),
        ("MZXW6YQ=", b"foob"),
        ("MZXW6YTB", b"fooba"),
        ("MZXW6YTBOI======", b"foobar"),
    ];
    for (text, bytes) in faelle {
        assert_eq!(base32_decode(text).as_deref(), Some(bytes));
        assert_eq!(base32_decode(text.trim_end_matches('=')).as_deref(), Some(bytes));
    }
}
