use matrixkit::verbindungen::{
    bt_an, bt_verbunden, geraete_aus, geraete_ordnen, nach_passwort, nach_verbinden, netze_aus,
    status_bauen, terse_felder, wlan_an, Aufgabe, Geraet, Msg, Panel, Status,
};

#[test]
fn terse_felder_mit_escape() {
    assert_eq!(terse_felder("*:Nick\\:Netz:76:WPA2"), vec!["*", "Nick:Netz", "76", "WPA2"]);
    assert_eq!(terse_felder(" ::29:WPA2"), vec![" ", "", "29", "WPA2"]);
}

#[test]
fn terse_backslash_am_ende_und_leer() {
    assert_eq!(terse_felder(""), vec![""]);
    assert_eq!(terse_felder("a\\\\b:c\\"), vec!["a\\b", "c"]);
}

#[test]
fn netze_zusammengefasst_und_geordnet() {
    let liste = " :Cafe:40:WPA2\n\
                 :Heim:55:WPA2\n\
                 *:Buero:30:\n\
                 :Heim:70:WPA1\n\
                 :Cafe:35:--\n\
                 :::\n\
                 :Offen:x:--\n";
    let n = netze_aus(liste);
    let ssids: Vec<&str> = n.iter().map(|x| x.ssid.as_str()).collect();
    assert_eq!(ssids, vec!["Buero", "Heim", "Cafe", "Offen"]);
    assert!(n[0].aktiv);
    assert!(!n[0].gesichert);
    assert_eq!(n[1].signal, 70);
    assert!(n[1].gesichert);
    assert_eq!(n[2].signal, 40);
    assert_eq!(n[3].signal, 0);
    assert!(!n[3].gesichert);
}

#[test]
fn hoechstens_zwoelf_netze() {
    let mut liste = String::new();
    for i in 0..20 {
        liste.push_str(&format!(":N{i}:{i}:WPA2\n"));
    }
    let n = netze_aus(&liste);
    assert_eq!(n.len(), 12);
    assert_eq!(n[0].ssid, "N19");
    assert_eq!(n[11].ssid, "N8");
}

#[test]
fn aktiv_bleibt_aktiv() {
    let n = netze_aus("*:A:10:WPA2\n:A:90:WPA2\n");
    assert_eq!(n.len(), 1);
    assert_eq!(n[0].signal, 90);
    assert!(n[0].aktiv);
}

#[test]
fn schalter_und_zeilen() {
    assert!(wlan_an("enabled\n"));
    assert!(!wlan_an("disabled"));
    assert!(bt_an("Controller X\n\tPowered: yes\n\tDiscoverable: no\n"));
    assert!(!bt_an("\tPowered: no\n"));
    assert!(bt_verbunden("Name: Kopfhoerer\n  Connected: yes\n"));
    assert!(!bt_verbunden("Connected: no"));
}

#[test]
fn geraete_zeilen_und_ordnung() {
    let g = geraete_aus("Device AA:BB Kopf Hoerer\nController X\nDevice CC:DD\nDevice EE:FF Maus\n");
    assert_eq!(
        g,
        vec![
            ("AA:BB".to_string(), "Kopf Hoerer".to_string()),
            ("EE:FF".to_string(), "Maus".to_string())
        ]
    );
    let v = vec![
        Geraet { mac: "1".into(), name: "Zebra".into(), verbunden: false },
        Geraet { mac: "2".into(), name: "Maus".into(), verbunden: true },
        Geraet { mac: "3".into(), name: "Affe".into(), verbunden: false },
        Geraet { mac: "4".into(), name: "Affe".into(), verbunden: false },
    ];
    let o: Vec<String> = geraete_ordnen(v).into_iter().map(|g| g.mac).collect();
    assert_eq!(o, vec!["2", "3", "4", "1"]);
}

#[test]
fn passwort_ablauf() {
    let (mut p, a) = Panel::new();
    assert!(matches!(a, Aufgabe::Erheben));
    assert!(p.laedt);
    assert_eq!(p.fusstext(), "Netze werden gesucht \u{2026}");
    p.update(Msg::Geladen(Status::default()));
    assert!(!p.laedt);
    let a = p.update(Msg::Verbinden("Heim".into(), true));
    assert!(matches!(a, Aufgabe::Verbinden(ref s, true) if s == "Heim"));
    let m = nach_verbinden(false, "Heim".into(), true);
    assert!(matches!(m, Msg::PasswortTipp(ref t) if t == "\u{0}Heim"));
    p.update(m);
    assert_eq!(p.passwort_fuer.as_deref(), Some("Heim"));
    assert!(!p.laedt);
    assert!(matches!(p.update(Msg::PasswortAbschicken), Aufgabe::Keine));
    assert!(p.passwort_fuer.is_none());
    p.update(nach_verbinden(false, "Heim".into(), true));
    p.update(Msg::PasswortTipp("geheim".into()));
    let a = p.update(Msg::PasswortAbschicken);
    assert!(matches!(a, Aufgabe::MitPasswort(ref s, ref pw) if s == "Heim" && pw == "geheim"));
    assert_eq!(p.passwort, "");
    let m = nach_passwort(false, "Heim".into());
    assert!(matches!(m, Msg::Ergebnis(false, ref t) if t == "Passwort für \u{201e}Heim\u{201c} abgelehnt"));
    let a = p.update(m);
    assert!(matches!(a, Aufgabe::Erheben));
    assert_eq!(p.meldung.as_ref().map(|m| m.0), Some(false));
}

#[test]
fn meldungen_nach_verbinden() {
    assert!(matches!(nach_verbinden(true, "X".into(), true), Msg::Ergebnis(true, ref t) if t == "Mit \u{201e}X\u{201c} verbunden"));
    assert!(matches!(nach_verbinden(false, "X".into(), false), Msg::Ergebnis(false, ref t) if t == "Verbindung mit \u{201e}X\u{201c} fehlgeschlagen"));
}

fn geraet(mac: &str, name: &str, verbunden: bool) -> Geraet {
    Geraet { mac: mac.to_string(), name: name.to_string(), verbunden }
}

#[test]
fn status_mit_beiden_funkteilen() {
    let s = status_bauen(
        Some("enabled\n"),
        Some(":Heim:55:WPA2\n*:Buero:30:\n"),
        Some("Controller 00:11\n\tPowered: yes\n"),
        vec![geraet("B", "Zeta", false), geraet("A", "Alpha", true)],
    );
    assert!(s.wlan_an);
    let ssids: Vec<&str> = s.netze.iter().map(|x| x.ssid.as_str()).collect();
    assert_eq!(ssids, vec!["Buero", "Heim"]);
    assert!(s.bt_an);
    let namen: Vec<&str> = s.geraete.iter().map(|g| g.name.as_str()).collect();
    assert_eq!(namen, vec!["Alpha", "Zeta"]);
}

#[test]
fn status_ohne_funk_hat_leere_listen() {
    let s = status_bauen(
        Some("disabled\n"),
        Some(":Heim:55:WPA2\n"),
        Some("\tPowered: no\n"),
        vec![geraet("A", "Alpha", true)],
    );
    assert!(!s.wlan_an);
    assert!(s.netze.is_empty());
    assert!(!s.bt_an);
    assert!(s.geraete.is_empty());
    let t = status_bauen(None, None, None, vec![geraet("A", "Alpha", true)]);
    assert!(!t.wlan_an && !t.bt_an && t.netze.is_empty() && t.geraete.is_empty());
}

#[test]
fn terse_liest_zurueck_was_maskiert_wurde() {
    let felder = vec!["Nick:Netz", "a\\b", "", "::"];
    let zeile: Vec<String> = felder
        .iter()
        .map(|f| f.replace('\\', "\\\\").replace(':', "\\:"))
        .collect();
    assert_eq!(terse_felder(&zeile.join(":")), felder);
}
