use matrixkit::leisten::{
    dock_titel, zeile2_eintrag, zonen_parse, zonen_string, BarWidget, Msg, Panel, Zone, BAR_STANDARD,
};

fn probe() -> Panel {
    Panel {
        links: vec![],
        mitte: vec![],
        rechts: vec![],
        pins: vec![],
        zeile2: vec![],
        ziel: Zone::Rechts,
    }
}

#[test]
fn parsen_und_serialisieren_ist_rund() {
    let (l, m, r) = zonen_parse(BAR_STANDARD);
    assert_eq!(l, vec![BarWidget::Matrix, BarWidget::Fokus]);
    assert_eq!(m, vec![BarWidget::Uhr]);
    assert_eq!(r.len(), 6);
    let s = zonen_string(&l, &m, &r);
    let (l2, m2, r2) = zonen_parse(&s);
    assert_eq!((l, m, r), (l2, m2, r2));
}

#[test]
fn unbekanntes_faellt_still_raus() {
    let (l, _m, _r) = zonen_parse("fokus quatsch | | ");
    assert_eq!(l, vec![BarWidget::Fokus]);
}

#[test]
fn schieben_ueber_zonengrenze() {
    let mut app = probe();
    app.links = vec![BarWidget::Fokus, BarWidget::Uhr];
    app.mitte = vec![];
    app.rechts = vec![];
    app.bar_rechts(Zone::Links, 1);
    assert_eq!(app.links, vec![BarWidget::Fokus]);
    assert_eq!(app.mitte, vec![BarWidget::Uhr]);
    app.bar_links(Zone::Mitte, 0);
    assert_eq!(app.links, vec![BarWidget::Fokus, BarWidget::Uhr]);
    assert!(app.mitte.is_empty());
}

#[test]
fn platziert_erkennt_dubletten() {
    let mut app = probe();
    app.links = vec![BarWidget::Glocke];
    assert!(app.platziert(BarWidget::Glocke));
    assert!(!app.platziert(BarWidget::Akku));
}

#[test]
fn zonen_string_format() {
    let s = zonen_string(&[BarWidget::Matrix], &[], &[BarWidget::Akku, BarWidget::Tray]);
    assert_eq!(s, "matrix |  | akku tray");
    assert_eq!(BarWidget::aus("zentrale"), Some(BarWidget::Zentrale));
    assert_eq!(BarWidget::aus("Zentrale"), None);
    assert_eq!(BarWidget::Tray.titel(), "Ablage");
    assert_eq!(Zone::Mitte.titel(), "Mitte");
}

#[test]
fn panel_bearbeiten() {
    let mut p = Panel::aus_einstellungen(None, Some("a b"), Some("uhr quatsch apps"));
    assert_eq!(p.links, vec![BarWidget::Matrix, BarWidget::Fokus]);
    assert_eq!(p.pins, vec!["a".to_string(), "b".to_string()]);
    assert_eq!(p.zeile2, vec!["uhr".to_string(), "apps".to_string()]);
    // placed widgets are not added twice
    assert!(!p.update(Msg::BarHinzu(BarWidget::Uhr)));
    assert!(p.update(Msg::BarHinzu(BarWidget::Aufnahme)));
    assert_eq!(p.rechts.last(), Some(&BarWidget::Aufnahme));
    assert!(!p.update(Msg::DockHinzu("a".to_string())));
    assert!(p.update(Msg::DockSchieben(0, 1)));
    assert_eq!(p.pins, vec!["b".to_string(), "a".to_string()]);
    assert!(!p.update(Msg::DockSchieben(0, -1)));
    assert!(p.update(Msg::BarWeg(Zone::Links, 0)));
    assert!(!p.update(Msg::BarWeg(Zone::Links, 5)));
    assert!(!p.update(Msg::ZielWahl(Zone::Links)));
    assert!(p.update(Msg::BarHinzu(BarWidget::Matrix)));
    assert_eq!(p.links, vec![BarWidget::Fokus, BarWidget::Matrix]);
    assert!(p.update(Msg::Standard));
    assert_eq!(p.links, vec![BarWidget::Matrix, BarWidget::Fokus]);
    assert_eq!(p.pins, vec!["matrix-einstellungen".to_string()]);
    assert_eq!(p.zeile2, vec!["apps".to_string()]);
}

#[test]
fn rechts_dann_links_hebt_auf() {
    let mut p = probe();
    p.links = vec![BarWidget::Matrix, BarWidget::Fokus];
    p.mitte = vec![BarWidget::Uhr];
    p.bar_rechts(Zone::Links, 0);
    assert_eq!(p.links, vec![BarWidget::Fokus, BarWidget::Matrix]);
    p.bar_links(Zone::Links, 1);
    assert_eq!(p.links, vec![BarWidget::Matrix, BarWidget::Fokus]);
    p.bar_links(Zone::Mitte, 0);
    assert_eq!(p.links, vec![BarWidget::Matrix, BarWidget::Fokus, BarWidget::Uhr]);
    p.bar_rechts(Zone::Links, 2);
    assert_eq!(p.mitte, vec![BarWidget::Uhr]);
}

#[test]
fn kataloge() {
    assert_eq!(dock_titel("matrix-codes"), "Codes");
    assert_eq!(dock_titel("org.mozilla.firefox"), "org.mozilla.firefox");
    assert_eq!(zeile2_eintrag("uhr"), Some(("uhr", "Uhr", "Uhrzeit")));
    assert_eq!(zeile2_eintrag("x"), None);
}

#[test]
fn speicher_texte_der_drei_schluessel() {
    let mut app = probe();
    app.links = vec![BarWidget::Matrix];
    app.mitte = vec![BarWidget::Uhr];
    app.rechts = vec![BarWidget::Fokus];
    app.pins = vec!["kitty".to_string(), "firefox".to_string()];
    app.zeile2 = vec!["uhr".to_string()];
    let (bar, pins, zeile2) = app.speicher_texte();
    assert_eq!(bar, zonen_string(&app.links, &app.mitte, &app.rechts));
    assert_eq!(pins, "kitty firefox");
    assert_eq!(zeile2, "uhr");
    let leer = probe();
    let (_, p, z) = leer.speicher_texte();
    assert_eq!(p, "");
    assert_eq!(z, "");
}
