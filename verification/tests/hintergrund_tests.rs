use matrixkit::hintergrund::{bild_kandidat, bild_wahl, modus_datei, umschalten, WachAktion, Wache};

#[test]
fn bild_quellen() {
    assert_eq!(modus_datei("/home/a", true), "/home/a/.config/matrix/hintergrund-hell");
    assert_eq!(modus_datei("/home/a", false), "/home/a/.config/matrix/hintergrund-dunkel");
    assert_eq!(bild_kandidat("  /b/x.jpg\n"), Some("/b/x.jpg".to_string()));
    assert_eq!(bild_kandidat(" \n"), None);
    assert_eq!(bild_wahl(Some("e".into()), Some("s".into()), true), Some("e".to_string()));
    assert_eq!(bild_wahl(None, Some("s".into()), true), Some("s".to_string()));
    assert_eq!(
        bild_wahl(None, None, true),
        Some("/usr/share/backgrounds/matrix/matrix-standard.jpg".to_string())
    );
    assert_eq!(bild_wahl(None, None, false), None);
}

#[test]
fn sonne_schaltet_nur_automatisch() {
    assert!(umschalten(Some("auto"), Some(true), false));
    assert!(!umschalten(Some("auto"), Some(true), true));
    assert!(!umschalten(Some("auto"), None, false));
    assert!(!umschalten(Some("fest"), Some(true), false));
    assert!(!umschalten(None, Some(false), true));
}

#[test]
fn wache_startet_nach_fuenf_fehlpulsen() {
    let mut w = Wache::neu();
    assert_eq!(w.lage(false, true), WachAktion::Anstossen);
    assert_eq!(w.lage(false, false), WachAktion::Nichts);
    assert_eq!(w.lage(true, true), WachAktion::Nichts);
    assert_eq!(w.fehlpulse, 0);
    for _ in 0..4 {
        assert_ne!(w.lage(false, true), WachAktion::Neustart);
    }
    assert_eq!(w.lage(false, true), WachAktion::Neustart);
    assert_eq!(w.fehlpulse, 5);
}
