use matrixkit::dev::{
    fingerabdruck, firewall_aus, firewall_text, nach_kopieren, nach_schluessel, netz_adressen,
    schluessel_text, schon_erlaubt, ssh_aktiv, test_text, Aufgabe, Msg, Panel, Status,
};

#[test]
fn netz_text_vorrang() {
    let mut s = Status::leer();
    assert_eq!(s.netz_text(), "Offline");
    s.hotspot_ip = Some("172.20.10.2".into());
    assert_eq!(s.netz_text(), "Handy-Hotspot · 172.20.10.2");
    s.heim_ip = Some("192.168.1.5".into());
    assert_eq!(s.netz_text(), "Heimnetz · 192.168.1.5");
}

#[test]
fn adressen_aus_ip_brief() {
    let aus = "lo UNKNOWN 127.0.0.1/8 ::1/128\n\
               wlan0 UP 192.168.1.23/24 fe80::1/64\n\
               usb0 UP 172.20.10.4/28\n\
               eth1 UP 192.168.7.9/16\n";
    let (heim, hotspot) = netz_adressen(aus);
    assert_eq!(heim.as_deref(), Some("192.168.1.23"));
    assert_eq!(hotspot.as_deref(), Some("172.20.10.4"));
    assert_eq!(netz_adressen("lo 127.0.0.1/8"), (None, None));
}

#[test]
fn werkzeug_ausgaben() {
    assert!(ssh_aktiv(Some("active")));
    assert!(!ssh_aktiv(Some("inactive")));
    assert!(!ssh_aktiv(None));
    assert_eq!(firewall_aus(Some("yes"), true), Some(true));
    assert_eq!(firewall_aus(Some("no"), true), Some(false));
    assert_eq!(firewall_aus(None, true), Some(false));
    assert_eq!(firewall_aus(None, false), None);
    assert_eq!(fingerabdruck(Some("256 SHA256:abc n@h (ED25519)")).as_deref(), Some("SHA256:abc"));
    assert_eq!(fingerabdruck(Some("256")), None);
    assert_eq!(schluessel_text(Some("  ssh-ed25519 AAA n@h\n")).as_deref(), Some("ssh-ed25519 AAA n@h"));
    assert_eq!(schluessel_text(Some(" \n")), None);
    assert!(schon_erlaubt("ssh-rsa X a\n  ssh-ed25519 Y b  \n", " ssh-ed25519 Y b"));
    assert!(!schon_erlaubt("ssh-rsa X a\n", "ssh-ed25519 Y b"));
    assert_eq!(firewall_text(Some(true)), "offen");
    assert_eq!(firewall_text(None), "—");
    assert_eq!(test_text(Some(false)), "nicht erreichbar");
}

#[test]
fn panel_schluessel_pruefung() {
    let (mut p, a) = Panel::new(None, Some("ich@partner".into()));
    assert!(matches!(a, Aufgabe::Erheben));
    assert_eq!(p.update_pc, "benutzer@bau-rechner");
    p.update(Msg::SchluesselInput("  kein schluessel ".into()));
    assert!(matches!(p.update(Msg::SchluesselErlauben), Aufgabe::Keine));
    assert_eq!(p.meldung.as_ref().map(|m| m.0), Some(false));
    assert_eq!(p.neuer_schluessel, "  kein schluessel ");
    p.update(Msg::SchluesselInput(" ssh-ed25519 AAA x ".into()));
    let a = p.update(Msg::SchluesselErlauben);
    assert!(matches!(a, Aufgabe::SchluesselErlauben(ref k) if k == "ssh-ed25519 AAA x"));
    assert_eq!(p.neuer_schluessel, "");
    let a = p.update(nach_schluessel(true));
    assert!(matches!(a, Aufgabe::Erheben));
    assert!(matches!(p.update(nach_kopieren(false)), Aufgabe::Keine));
    let mut s = Status::leer();
    s.schluessel_kurz = Some("SHA256:x".into());
    p.update(Msg::Geladen(s));
    assert_eq!(p.fp_text, "SHA256:x");
    assert_eq!(p.netz_text, "Offline");
    assert!(!p.laedt);
    p.update(Msg::UpdatePcInput(" a@b ".into()));
    assert!(matches!(p.update(Msg::GegenstelleTesten), Aufgabe::GegenstelleTesten(ref z) if z == "a@b"));
    p.update(Msg::GegenstelleGetestet(true));
    assert_eq!(p.pc_erreichbar, Some(true));
    assert!(matches!(p.update(Msg::Speichern), Aufgabe::Speichern(ref a, ref b) if a == "a@b" && b == "ich@partner"));
}
