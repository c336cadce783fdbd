use matrixkit::dock::zw_pflegen;
use matrixkit::hintergrund::{ist_hell, sitzungs_bild};
use matrixkit::kontext::clips_aus;

#[test]
fn zwischenablage_datei_pflegen() {
    let (json, erster) = zw_pflegen(Some(r#"["b","a"]"#), "a", true);
    assert_eq!(json.as_deref(), Some(r#"["a","b"]"#));
    assert_eq!(erster.as_deref(), Some("a"));
    let (json, erster) = zw_pflegen(Some(r#"["b"]"#), "  ", true);
    assert_eq!(json, None);
    assert_eq!(erster.as_deref(), Some("b"));
    let (json, erster) = zw_pflegen(Some("kein json"), "x", true);
    assert_eq!(json.as_deref(), Some(r#"["x"]"#));
    assert_eq!(erster.as_deref(), Some("x"));
    assert_eq!(zw_pflegen(None, "", false), (None, None));
}

#[test]
fn clips_lesen() {
    assert_eq!(clips_aus(Some(r#"["eins", "zwei"]"#)), vec!["eins", "zwei"]);
    assert!(clips_aus(Some("[1,2]")).is_empty());
    assert!(clips_aus(None).is_empty());
}

#[test]
fn sitzungsdatei_lesen() {
    assert!(ist_hell(Some(r#"{"isLightMode": true}"#)));
    assert!(!ist_hell(Some(r#"{"isLightMode": "true"}"#)));
    assert!(!ist_hell(None));
    assert_eq!(sitzungs_bild(Some(r#"{"wallpaperPath": "/b/a.jpg"}"#)), Some("/b/a.jpg".to_string()));
    assert_eq!(sitzungs_bild(Some(r#"{"wallpaperPath": ""}"#)), None);
    assert_eq!(sitzungs_bild(Some("[]")), None);
}

#[test]
fn greeter_wallpaper_kandidaten() {
    let s = r#"{"wallpaperPathDark": "/b/d.jpg", "wallpaperPath": 3, "wallpaperPathLight": ""}"#;
    assert_eq!(matrixkit::greeter::wallpaper_felder(s), vec!["/b/d.jpg", ""]);
    assert!(matrixkit::greeter::wallpaper_felder("x").is_empty());
}
