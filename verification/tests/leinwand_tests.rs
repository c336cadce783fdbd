use matrixkit::leinwand::{
    galerie_auswahl, geist_modus_aus, schalter_an, wallpaper_zuordnung, Auftrag, Msg, Panel,
};

fn fund(o: &str, p: &str) -> (String, String) {
    (o.to_string(), p.to_string())
}

#[test]
fn galerie_filtert_sortiert_und_kappt() {
    let funde = vec![
        fund("/home/a/Bilder", "/home/a/Bilder/z.PNG"),
        fund("/home/a/Bilder", "/home/a/Bilder/notiz.txt"),
        fund("/usr/share/backgrounds/matrix", "/usr/share/backgrounds/matrix/b.jpg"),
        fund("/home/a/Downloads", "/home/a/Downloads/a.jpeg"),
        fund("/home/a/Bilder", "/home/a/Bilder/z.PNG"),
        fund("/home/a/Bilder", "/home/a/Bilder/ohne"),
    ];
    let g = galerie_auswahl(&funde);
    assert_eq!(
        g,
        vec![
            ("/home/a/Bilder/z.PNG".to_string(), false),
            ("/home/a/Downloads/a.jpeg".to_string(), false),
            ("/usr/share/backgrounds/matrix/b.jpg".to_string(), true),
        ]
    );
    let viele: Vec<(String, String)> =
        (0..30).map(|i| fund("/x", &format!("/x/{:02}.jpg", 29 - i))).collect();
    let g = galerie_auswahl(&viele);
    assert_eq!(g.len(), 24);
    assert_eq!(g[0].0, "/x/00.jpg");
    assert_eq!(g[23].0, "/x/23.jpg");
}

#[test]
fn pfade_nach_komponenten_geordnet() {
    let funde = vec![fund("/h", "/h/a-b.png"), fund("/h", "/h/a/b.png")];
    let g = galerie_auswahl(&funde);
    assert_eq!(g[0].0, "/h/a/b.png");
    assert_eq!(g[1].0, "/h/a-b.png");
}

#[test]
fn zuordnung_aus_sitzung() {
    let s = r#"{"wallpaperPathLight": "/b/hell.jpg", "wallpaperPathDark": "", "x": 1}"#;
    assert_eq!(wallpaper_zuordnung(Some(s)), (Some("/b/hell.jpg".to_string()), None));
    assert_eq!(wallpaper_zuordnung(Some("kaputt")), (None, None));
    assert_eq!(wallpaper_zuordnung(None), (None, None));
}

#[test]
fn schalter_und_geist() {
    assert_eq!(geist_modus_aus(Some("immer")), 1);
    assert_eq!(geist_modus_aus(Some("aus")), 2);
    assert_eq!(geist_modus_aus(Some("scrollen")), 0);
    assert!(schalter_an(None));
    assert!(schalter_an(Some("an")));
    assert!(!schalter_an(Some("aus")));
}

#[test]
fn panel_setzt_hintergrund_fuer_den_zielmodus() {
    let mut p = Panel::neu(Some("aus"), Some("aus"), None, None, None, false);
    assert_eq!(p.geist_modus, 2);
    assert!(!p.blaettern && p.klick_holt && p.heimweg);
    assert_eq!(p.ziel_modus, 1);
    assert!(p.galerie_laedt);
    match p.update(Msg::GeistModus(7)) {
        Auftrag::Speichern(n, w) => assert_eq!((n, w), ("leinwand-geist", "aus")),
        _ => panic!("kein Auftrag"),
    }
    assert_eq!(p.gespeichert.as_deref(), Some("Fenster-Geist \u{2713} — wirkt sofort"));
    p.update(Msg::GalerieGeladen(vec![("/b/x.jpg".to_string(), false)]));
    assert!(!p.galerie_laedt);
    assert!(matches!(p.update(Msg::HintergrundSetzen(3, false)), Auftrag::Keiner));
    match p.update(Msg::HintergrundSetzen(0, false)) {
        Auftrag::Hintergrund { pfad, hell, live } => {
            assert_eq!(pfad, "/b/x.jpg");
            assert!(!hell && live);
        }
        _ => panic!("kein Auftrag"),
    }
    assert_eq!(p.dunkel_pfad.as_deref(), Some("/b/x.jpg"));
    assert_eq!(p.gespeichert.as_deref(), Some("Hintergrund (Dunkel) \u{2713} — wirkt sofort"));
    p.update(Msg::ZielModus(5));
    assert_eq!(p.ziel_modus, 1);
    p.update(Msg::ZielModus(0));
    match p.update(Msg::HintergrundSetzen(0, false)) {
        Auftrag::Hintergrund { hell, live, .. } => assert!(hell && !live),
        _ => panic!("kein Auftrag"),
    }
    p.update(Msg::Tick);
    assert!(p.gespeichert.is_none());
}
