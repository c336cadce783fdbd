use matrixkit::dateien::{
    kopie_kandidat, kopie_pfad, auswahl_taste, datum_text, doppelklick, filter_stufe, leeren_klick, spring_ordner, vorschau_behalten, frei_text, galerie_von, ordner_liste, ist_appimage, kopie_name, ordner_name, sichtbare, sortier_klick,
    sortieren, umbenennen_fertig, zieh_ziel, Eintrag, Galerie, Spalte, Umbenennung, Verlauf,
    ZiehZiel,
};

fn probe(name: &str, ordner: bool, groesse: u64) -> Eintrag {
    Eintrag {
        name: name.into(),
        pfad: format!("/tmp/{name}"),
        ordner,
        groesse,
        geaendert: None,
    }
}

#[test]
fn art_erkennt_typen() {
    assert_eq!(probe("bild.PNG", false, 1).art(), "Bild");
    assert_eq!(probe("main.rs", false, 1).art(), "Rust-Quelltext");
    assert_eq!(probe("ordner", true, 0).art(), "Ordner");
    assert_eq!(probe("irgendwas.xyz", false, 1).art(), "Dokument");
}

#[test]
fn art_ohne_punkt_und_randfaelle() {
    assert_eq!(probe("png", false, 1).art(), "Bild");
    assert_eq!(probe("archiv.tar.GZ", false, 1).art(), "Archiv");
    assert_eq!(probe("leer.", false, 1).art(), "Dokument");
    assert_eq!(probe("app.desktop", false, 1).art(), "App-Verknüpfung");
    assert_eq!(probe("x.yml", false, 1).art(), "Konfiguration");
}

#[test]
fn sortierung_und_richtung() {
    let mut v = vec![probe("b", false, 2), probe("A", false, 3), probe("c", true, 1)];
    sortieren(&mut v, Spalte::Name, false);
    assert_eq!(v[0].name, "A");
    sortieren(&mut v, Spalte::Groesse, true);
    assert_eq!(v[0].groesse, 3);
}

#[test]
fn sortierung_stabil_und_nach_art() {
    let mut v = vec![
        probe("z.txt", false, 1),
        probe("a.png", false, 1),
        probe("Ordner", true, 1),
        probe("b.txt", false, 1),
    ];
    sortieren(&mut v, Spalte::Groesse, false);
    let namen: Vec<&str> = v.iter().map(|e| e.name.as_str()).collect();
    assert_eq!(namen, vec!["z.txt", "a.png", "Ordner", "b.txt"]);
    sortieren(&mut v, Spalte::Art, false);
    let namen: Vec<&str> = v.iter().map(|e| e.name.as_str()).collect();
    assert_eq!(namen, vec!["a.png", "Ordner", "b.txt", "z.txt"]);
    let mut d = vec![probe("x", false, 1), probe("y", false, 1), probe("w", false, 1)];
    d[0].geaendert = Some(5);
    d[1].geaendert = Some(-3);
    sortieren(&mut d, Spalte::Datum, false);
    let namen: Vec<&str> = d.iter().map(|e| e.name.as_str()).collect();
    assert_eq!(namen, vec!["w", "y", "x"]);
}

#[test]
fn versteckt_am_punkt() {
    assert!(probe(".geheim", false, 1).versteckt());
    assert!(!probe("offen", false, 1).versteckt());
}

#[test]
fn appimage_und_galerie() {
    assert!(ist_appimage("/home/n/Programme/Werkzeug.AppImage"));
    assert!(ist_appimage("x.appimage"));
    assert!(!ist_appimage("/home/n/.appimage"));
    assert!(!ist_appimage("/home/n/AppImage"));
    assert_eq!(galerie_von("/h/Bilder", "/h/Bilder", "/h/Videos"), Galerie::Wurzel);
    assert_eq!(galerie_von("/h/Videos/", "/h/Bilder", "/h/Videos"), Galerie::Wurzel);
    assert_eq!(galerie_von("/h/Bilder/Urlaub", "/h/Bilder", "/h/Videos"), Galerie::Album);
    assert_eq!(galerie_von("/h/Bildermappe", "/h/Bilder", "/h/Videos"), Galerie::Keine);
}

#[test]
fn verlauf_wie_im_browser() {
    let mut v = Verlauf::neu("/a".to_string());
    v.gehe("/b".to_string());
    v.gehe("/c".to_string());
    assert_eq!(v.zurueck(), Some("/b".to_string()));
    assert_eq!(v.zurueck(), Some("/a".to_string()));
    assert_eq!(v.zurueck(), None);
    assert_eq!(v.vor(), Some("/b".to_string()));
    v.gehe("/d".to_string());
    assert_eq!(v.vor(), None);
    assert_eq!(v.pfade, vec!["/a", "/b", "/d"]);
    assert_eq!(v.jetzt(), "/d");
}

#[test]
fn suche_und_tasten() {
    let v = vec![probe("Bericht.txt", false, 1), probe("bild.png", false, 1), probe("Notiz", false, 1)];
    assert_eq!(sichtbare(&v, "BI"), vec![1]);
    assert_eq!(sichtbare(&v, ""), vec![0, 1, 2]);
    assert_eq!(sichtbare(&v, "t"), vec![0, 2]);
    let sicht = vec![0, 2, 5];
    assert_eq!(auswahl_taste(&sicht, None, true), Some(0));
    assert_eq!(auswahl_taste(&sicht, None, false), Some(5));
    assert_eq!(auswahl_taste(&sicht, Some(2), true), Some(5));
    assert_eq!(auswahl_taste(&sicht, Some(5), true), Some(5));
    assert_eq!(auswahl_taste(&sicht, Some(0), false), Some(0));
    assert_eq!(auswahl_taste(&sicht, Some(7), true), Some(0));
    assert_eq!(auswahl_taste(&Vec::new(), Some(7), true), Some(7));
    assert_eq!(sortier_klick(Spalte::Name, false, Spalte::Name), (Spalte::Name, true));
    assert_eq!(sortier_klick(Spalte::Name, true, Spalte::Art), (Spalte::Art, false));
}

#[test]
fn umbenennen_warnt_bei_endung() {
    assert!(matches!(umbenennen_fertig(Some("a.txt".into()), "a.md", false), Umbenennung::Warnen));
    assert!(matches!(umbenennen_fertig(Some("a.txt".into()), "a.md", true), Umbenennung::Umbenennen(ref n) if n == "a.md"));
    assert!(matches!(umbenennen_fertig(Some("a.txt".into()), " b.TXT ", false), Umbenennung::Umbenennen(ref n) if n == "b.TXT"));
    assert!(matches!(umbenennen_fertig(Some("a.txt".into()), "a.txt", false), Umbenennung::Beenden));
    assert!(matches!(umbenennen_fertig(Some("a.txt".into()), "x/y.txt", false), Umbenennung::Beenden));
    assert!(matches!(umbenennen_fertig(None, "egal", false), Umbenennung::Beenden));
    assert_eq!(ordner_name("  Neu  "), Some("Neu".to_string()));
    assert_eq!(ordner_name("a/b"), None);
    assert_eq!(ordner_name("   "), None);
}

#[test]
fn ziehen_und_kopien() {
    assert!(zieh_ziel(Some(ZiehZiel::Programme), "/x/a.txt", false).is_none());
    assert!(matches!(zieh_ziel(Some(ZiehZiel::Programme), "/x/a.AppImage", true), Some(ZiehZiel::Programme)));
    assert!(zieh_ziel(Some(ZiehZiel::Ordner("/x/a".into())), "/x/a", false).is_none());
    assert!(matches!(zieh_ziel(Some(ZiehZiel::Ordner("/x/b".into())), "/x/a", false), Some(ZiehZiel::Ordner(ref p)) if p == "/x/b"));
    assert_eq!(kopie_name("/nirgends/bericht.txt", 0), "bericht Kopie.txt");
    assert_eq!(kopie_name("/nirgends/bericht.txt", 3), "bericht Kopie 3.txt");
    assert_eq!(kopie_name("/n/.bashrc", 0), ".bashrc Kopie");
    assert_eq!(kopie_name("/n/a.tar.gz", 1), "a.tar Kopie 1.gz");
}

#[test]
fn ordner_liste_blendet_versteckte_aus() {
    let e = |n: &str, g: u64| Eintrag {
        name: n.to_string(),
        pfad: format!("/h/{n}"),
        ordner: false,
        groesse: g,
        geaendert: None,
    };
    let v = vec![e("b", 3), e(".x", 1), e("a", 2)];
    let l = ordner_liste(v, false, Spalte::Name, false);
    assert_eq!(l.iter().map(|x| x.name.as_str()).collect::<Vec<_>>(), vec!["a", "b"]);
    let v = vec![e("b", 3), e(".x", 1), e("a", 2)];
    let l = ordner_liste(v, true, Spalte::Groesse, true);
    assert_eq!(l.iter().map(|x| x.name.as_str()).collect::<Vec<_>>(), vec!["b", "a", ".x"]);
}


#[test]
fn freier_platz() {
    assert_eq!(frei_text(" Avail\n 234G\n"), "234G verfügbar");
    assert_eq!(frei_text(""), "");
    assert_eq!(frei_text("Avail"), "Avail verfügbar");
}

#[test]
fn datum_ohne_zeit_ist_ein_strich() {
    assert_eq!(datum_text(None), "—");
    let t = datum_text(Some(1_781_774_880_500_000_000));
    assert_eq!(t.chars().count(), 17);
    assert_eq!(&t[10..12], ", ");
    assert_eq!((&t[2..3], &t[5..6], &t[14..15]), (".", ".", ":"));
    assert!(t.contains("2026"));
    assert_eq!(datum_text(Some(i128::MAX)), "—");
    assert_eq!(datum_text(Some(i128::MIN)), "—");
    assert_eq!(datum_text(Some(-1)).chars().count(), 17);
}

#[test]
fn art_unabhaengig_von_gross_und_klein() {
    for (a, b) in [("Urlaub.JPEG", "urlaub.jpeg"), ("NOTIZ.Md", "notiz.md"), ("x.Tar.GZ", "X.tar.gz")] {
        assert_eq!(probe(a, false, 1).art(), probe(b, false, 1).art());
    }
    assert_eq!(probe("Urlaub.JPEG", false, 1).art(), "Bild");
}

#[test]
fn doppelklick_nur_auf_derselben_zeile_im_fenster() {
    assert!(!doppelklick(None, 3, 1000, 400));
    assert!(doppelklick(Some((3, 1000)), 3, 1399, 400));
    assert!(!doppelklick(Some((3, 1000)), 3, 1400, 400));
    assert!(!doppelklick(Some((2, 1000)), 3, 1100, 400));
    assert!(doppelklick(Some((3, 1000)), 3, 900, 400));
}

#[test]
fn papierkorb_leert_erst_beim_zweiten_klick() {
    let (b1, leeren1) = leeren_klick(false);
    assert!(b1 && !leeren1);
    let (b2, leeren2) = leeren_klick(b1);
    assert!(!b2 && leeren2);
}

#[test]
fn galerie_filter_hoechstens_zwei() {
    assert_eq!(filter_stufe(0), 0);
    assert_eq!(filter_stufe(2), 2);
    assert_eq!(filter_stufe(7), 2);
}

#[test]
fn zug_springt_nach_der_schwebezeit_in_den_ordner() {
    let ziel = Some(ZiehZiel::Ordner("/home/a/Bilder".to_string()));
    assert_eq!(spring_ordner(true, &ziel, Some(1000), 1500, 500), Some("/home/a/Bilder".to_string()));
    assert_eq!(spring_ordner(true, &ziel, Some(1000), 1499, 500), None);
    assert_eq!(spring_ordner(false, &ziel, Some(1000), 2000, 500), None);
    assert_eq!(spring_ordner(true, &Some(ZiehZiel::Programme), Some(1000), 2000, 500), None);
    assert_eq!(spring_ordner(true, &ziel, None, 2000, 500), None);
}

#[test]
fn vorschauen_verdunsten_erst_ueber_der_grenze() {
    let wenige: Vec<String> = (0..240).map(|i| format!("/x/{i}.png")).collect();
    assert_eq!(vorschau_behalten(wenige.clone(), &vec![]), wenige);
    let viele: Vec<String> = (0..241).map(|i| format!("/x/{i}.png")).collect();
    let aktuell = vec!["/x/7.png".to_string(), "/x//240.png".to_string(), "/y/1.png".to_string()];
    assert_eq!(vorschau_behalten(viele, &aktuell), vec!["/x/7.png".to_string(), "/x/240.png".to_string()]);
}

#[test]
fn datum_an_den_grenzen_des_kalenders() {
    let g: i128 = 1_000_000_000;
    let erste = -8_334_601_228_800i128 * g;
    let letzte = 8_210_266_876_799i128 * g + (g - 1);
    for n in [erste, letzte, 0, -1, 253_402_300_800 * g] {
        let t = datum_text(Some(n));
        assert!(t.chars().count() >= 17, "{t}");
        assert_eq!((&t[2..3], &t[5..6]), (".", "."));
        assert!(t.ends_with(|c: char| c.is_ascii_digit()));
    }
    assert_eq!(datum_text(Some(erste - 1)), "—");
    assert_eq!(datum_text(Some(letzte + 1)), "—");
}

#[test]
fn kopie_pfad_weicht_aus() {
    let p = kopie_pfad("/nirgends/bericht.txt", &vec![]);
    assert_eq!(p, "/nirgends/bericht Kopie.txt");
}

#[test]
fn kopie_pfad_nimmt_die_erste_freie() {
    assert_eq!(kopie_pfad("/a/b.txt", &vec![true, true, false]), "/a/b Kopie 2.txt");
    assert_eq!(kopie_pfad("/a/b.txt", &vec![true]), "/a/b Kopie 1.txt");
    assert_eq!(kopie_pfad("/a/b.txt", &vec![true; 99]), "/a/b Kopie 99.txt");
    assert_eq!(kopie_pfad("/a/b.txt", &vec![true; 120]), "/a/b Kopie 99.txt");
    assert_eq!(kopie_kandidat("b.txt", 0), "b Kopie.txt");
    assert_eq!(kopie_kandidat("/b", 3), "/b Kopie 3");
}
