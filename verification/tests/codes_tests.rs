use matrixkit::codes::{datei_text, eingabe_lesbar, konten_laden, Codes};
use matrixkit::totp::Konto;

#[test]
fn datei_rundreise() {
    let a = Konto::neu("alice", "ACME", "GEZDGNBVGY3TQOJQGEZDGNBVGY3TQOJQ", 8, 30).unwrap();
    let b = Konto::neu(" bob ", "", "gezd gnbv gy3t qojq", 6, 60).unwrap();
    let text = datei_text(&vec![a.clone(), b.clone()]);
    assert_eq!(
        text,
        "# Matrix Codes — 2FA-Geheimnisse (verwaltet von der App)\n\
         alice\tACME\tGEZDGNBVGY3TQOJQGEZDGNBVGY3TQOJQ\t8\t30\n\
         bob\t\tgezdgnbvgy3tqojq\t6\t60\n"
    );
    let zurueck = konten_laden(Some(&text));
    assert_eq!(zurueck.len(), 2);
    assert_eq!(zurueck[0].name, "alice");
    assert_eq!(zurueck[0].secret, a.secret);
    assert_eq!(zurueck[0].stellen, 8);
    assert_eq!(zurueck[1].name, "bob");
    assert_eq!(zurueck[1].periode, 60);
}

#[test]
fn datei_lesen_robust() {
    let t = "# Kommentar\n\n  # auch\nx\tI\tGEZDGNBV\tneun\tx\nkurz\tnur\n y\t\t!!!\t6\t30\n";
    let k = konten_laden(Some(t));
    assert_eq!(k.len(), 1);
    assert_eq!(k[0].name, "x");
    assert_eq!(k[0].stellen, 6);
    assert_eq!(k[0].periode, 30);
    let b = konten_laden(None);
    assert_eq!(b.len(), 1);
    assert_eq!(b[0].name, "Beispiel (RFC 6238)");
    assert_eq!(b[0].code(59), "287082");
}

#[test]
fn eingabe_pruefung() {
    assert!(eingabe_lesbar("GEZDGNBV"));
    assert!(eingabe_lesbar("otpauth://totp/ACME:alice?secret=GEZDGNBV&issuer=A%20B"));
    assert!(!eingabe_lesbar("otpauth://totp/a%2ä?secret=GEZDGNBV"));
    assert!(!eingabe_lesbar("otpauth://totp/a?issuer=%2ä&secret=GEZDGNBV"));
}

#[test]
fn fenster_ablauf() {
    let mut c = Codes::neu(konten_laden(None), 59);
    assert_eq!(c.kopieren(0, true), Some("287082".to_string()));
    assert_eq!(c.kopiert, Some(0));
    c.tick(59);
    assert_eq!(c.kopiert, Some(0));
    c.tick(60);
    assert_eq!(c.kopiert, None);
    assert_eq!(c.kopieren(0, false), None);
    assert_eq!(c.kopieren(5, true), None);
    c.eingabe("kein base32 !".into());
    assert!(!c.hinzufuegen(false));
    assert!(!c.eingabe_fehler);
    assert!(!c.hinzufuegen(true));
    assert!(c.eingabe_fehler);
    c.eingabe("otpauth://totp/ACME:alice?secret=GEZDGNBVGY3TQOJQGEZDGNBVGY3TQOJQ".into());
    assert!(c.hinzufuegen(true));
    assert_eq!(c.konten.len(), 2);
    assert_eq!(c.eingabe, "");
    assert!(!c.entfernen(0, false));
    assert!(c.entfernen(0, true));
    assert_eq!(c.konten[0].name, "alice");
    assert!(!c.entfernen(3, true));
}
