use matrixkit::einstellungen::{
    akku_aus, bereich_aus_arg, bereich_aus_wunsch, bereich_titel, desktop_modus_waehlen,
    erscheinung_aus, erscheinung_waehlen, erste_zeile, ip_aus, netz_summe, os_name,
    platte_waehlen, radius_minus, radius_plus, schlagworte, start_bereich, treffer,
    Navigation, Platte,
};

#[test]
fn titel_und_schlagworte() {
    assert_eq!(bereich_titel(0), "Übersicht");
    assert_eq!(bereich_titel(5), "Leiste & Dock");
    assert_eq!(bereich_titel(99), "Entwickler");
    assert!(schlagworte(3).starts_with("geist"));
}

#[test]
fn wuensche_und_argumente() {
    assert_eq!(bereich_aus_wunsch(" wlan\n"), Some(2));
    assert_eq!(bereich_aus_wunsch("klänge"), Some(6));
    assert_eq!(bereich_aus_wunsch("allgemein"), Some(1));
    assert_eq!(bereich_aus_wunsch("entwicklerzugang"), Some(7));
    assert_eq!(bereich_aus_wunsch("quatsch"), None);
    assert_eq!(bereich_aus_arg("netz"), None);
    assert_eq!(bereich_aus_arg("anpassen"), Some(5));
    assert_eq!(bereich_aus_arg(" dev"), None);
    assert_eq!(start_bereich(Some(3), Some(6)), 3);
    assert_eq!(start_bereich(None, Some(6)), 6);
    assert_eq!(start_bereich(None, None), 0);
    assert_eq!(start_bereich(Some(42), None), 7);
}

#[test]
fn verlauf_zurueck_vor() {
    let mut n = Navigation::neu(0);
    n.gehe_zu(3);
    n.gehe_zu(3);
    assert_eq!(n.verlauf, vec![0, 3]);
    n.suche = "ton".to_string();
    n.gehe_zu(6);
    assert_eq!(n.suche, "");
    assert_eq!(n.verlauf, vec![0, 3, 6]);
    n.zurueck();
    n.zurueck();
    assert_eq!(n.bereich, 0);
    n.zurueck();
    assert_eq!(n.pos, 0);
    n.vor();
    assert_eq!(n.bereich, 3);
    n.gehe_zu(99);
    assert_eq!(n.verlauf, vec![0, 3, 7]);
    assert_eq!(n.bereich, 7);
    n.vor();
    assert_eq!(n.bereich, 7);
}

#[test]
fn sidebar_suche() {
    assert_eq!(treffer(""), vec![0, 1, 2, 3, 4, 5, 6, 7]);
    assert_eq!(treffer("Bluetooth"), vec![2]);
    assert_eq!(treffer("ÜBERS"), vec![0]);
    assert_eq!(treffer("kopfhoerer"), vec![2, 6]);
    assert_eq!(treffer("hell"), vec![1, 4]);
    assert!(treffer("xyz").is_empty());
}

#[test]
fn erscheinung_und_modus() {
    let w = erscheinung_waehlen("Hell");
    assert_eq!(w.index, 1);
    assert_eq!(w.wert, "hell");
    assert_eq!(w.befehle[0], vec!["dms", "ipc", "call", "theme", "light"]);
    assert_eq!(w.befehle[1][2], "stop");
    assert_eq!(w.meldung, "Erscheinung: Hell \u{2713} — Sonnen-Rhythmus pausiert");
    let w = erscheinung_waehlen("Automatisch (Sonne)");
    assert_eq!(w.index, 0);
    assert_eq!(w.wert, "automatisch");
    assert_eq!(w.befehle[1], vec!["systemctl", "--user", "start", "theme-sonne.service"]);
    assert_eq!(erscheinung_waehlen("Dunkel").befehle[0][4], "dark");
    let (m, wert, text) = desktop_modus_waehlen("Unendliche Leinwand", false);
    assert_eq!((m, wert.as_str()), (1, "leinwand"));
    assert!(text.contains("Matrix Leinwand"));
    let (m, _, text) = desktop_modus_waehlen("Klassisch", false);
    assert_eq!(m, 0);
    assert_eq!(text, "Klassischer Desktop ist aktiv \u{2713}");
    assert_eq!(desktop_modus_waehlen("Unendliche Leinwand", true).2, "Unendliche Leinwand ist aktiv \u{2713}");
    assert_eq!(erscheinung_aus(Some("dunkel")), 2);
    assert_eq!(erscheinung_aus(Some("Hell")), 0);
    assert_eq!(erscheinung_aus(None), 0);
}

#[test]
fn eckenradius_grenzen() {
    assert_eq!(radius_minus(10), 8);
    assert_eq!(radius_minus(5), 4);
    assert_eq!(radius_minus(0), 4);
    assert_eq!(radius_plus(22), 24);
    assert_eq!(radius_plus(23), 24);
    assert_eq!(radius_plus(4), 6);
}

#[test]
fn systemdaten_lesen() {
    let os = "NAME=Fedora\nPRETTY_NAME=\"Fedora Linux 42 (Silverblue)\"\nPRETTY_NAME=x\n";
    assert_eq!(os_name(Some(os), "Matrix"), "Fedora Linux 42 (Silverblue)");
    assert_eq!(os_name(Some("NAME=x\n"), "Matrix"), "Matrix");
    assert_eq!(os_name(None, "Linux"), "Linux");
    assert_eq!(os_name(Some("PRETTY_NAME=PRETTY_NAME=\"\"a\"\""), "L"), "a");
    assert_eq!(erste_zeile("  Laptop 13 \nx"), Some("Laptop 13".to_string()));
    assert_eq!(erste_zeile("\n"), None);
    assert_eq!(akku_aus(Some("87\n"), Some("Charging\n")), Some((87, true)));
    assert_eq!(akku_aus(Some("130"), Some("Discharging")), Some((100, false)));
    assert_eq!(akku_aus(Some("x"), Some("Full")), None);
    assert_eq!(akku_aus(Some("50"), None), Some((50, false)));
    assert_eq!(
        ip_aus(Some("2: wlp1s0    inet 192.168.1.20/24 brd 192.168.1.255 scope global\n")),
        "192.168.1.20"
    );
    assert_eq!(ip_aus(Some("")), "—");
    assert_eq!(ip_aus(None), "—");
}

fn platte(m: &str, g: u64, f: u64) -> Platte {
    Platte { mount: m.to_string(), gesamt: g, frei: f }
}

#[test]
fn platte_und_netz() {
    let v = vec![platte("/", 100, 40), platte("/var/home", 500, 100), platte("/boot", 1, 1)];
    assert_eq!(platte_waehlen(&v), Some((500, 400)));
    let v = vec![platte("/a", 100, 40), platte("/b", 300, 100), platte("/c", 300, 0)];
    assert_eq!(platte_waehlen(&v), Some((300, 300)));
    assert_eq!(platte_waehlen(&Vec::new()), None);
    let n = vec![("lo".to_string(), 1000, 1000), ("eth0".to_string(), 5, 7), ("wlan0".to_string(), 1, 2)];
    assert_eq!(netz_summe(&n), (6, 9));
}
