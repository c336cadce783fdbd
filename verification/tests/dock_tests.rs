use matrixkit::dock::{
    huepfer_behalten, initial, kacheln_bilden, klick, pins_aus, pins_wechseln, widgets_aus,
    zw_verlauf, Fenster, Kachel, Klick, Widget,
};

fn f(id: u64, app: &str, fokus: bool) -> Fenster {
    Fenster { id, app_id: app.to_string(), fokus }
}

fn kachel(fenster: Vec<Fenster>, gepinnt: bool, fokus: bool) -> Kachel {
    Kachel { app_id: "app".to_string(), fenster, gepinnt, fokus, abzeichen: None }
}

#[test]
fn pins_zuerst_dann_nach_alter() {
    let pins = vec!["matrix-dateien".to_string(), "firefox".to_string(), "matrix-dateien".to_string()];
    let fenster = vec![
        f(9, "foot", false),
        f(7, "firefox", false),
        f(3, "firefox", true),
        f(5, "matrix-codes", false),
        f(2, "foot", false),
    ];
    let k = kacheln_bilden(&pins, &fenster);
    assert_eq!(k.len(), 5);
    assert_eq!(k[0].app_id, "matrix-dateien");
    assert!(k[0].gepinnt && k[0].fenster.is_empty() && !k[0].fokus);
    assert_eq!(k[1].app_id, "firefox");
    assert_eq!(k[1].fenster.iter().map(|x| x.id).collect::<Vec<_>>(), vec![3, 7]);
    assert!(k[1].fokus);
    assert_eq!(k[2].app_id, "matrix-dateien");
    assert!(k[2].fenster.is_empty());
    assert_eq!(k[3].app_id, "foot");
    assert!(!k[3].gepinnt);
    assert_eq!(k[3].fenster.iter().map(|x| x.id).collect::<Vec<_>>(), vec![2, 9]);
    assert_eq!(k[4].app_id, "matrix-codes");
}

#[test]
fn klick_ziele() {
    let k = kachel(vec![f(1, "a", false), f(2, "a", true), f(3, "a", false)], false, true);
    assert_eq!(k.ziel(), Some(3));
    let k = kachel(vec![f(1, "a", false), f(2, "a", false), f(3, "a", true)], false, true);
    assert_eq!(k.ziel(), Some(1));
    let k = kachel(vec![f(1, "a", false), f(2, "a", false)], false, true);
    assert_eq!(k.ziel(), None);
    let k = kachel(vec![f(4, "a", false), f(5, "a", false)], false, false);
    assert_eq!(k.ziel(), Some(4));
    assert!(matches!(klick(&k), Klick::Fokus(4)));
    let k = kachel(Vec::new(), true, false);
    assert!(!k.laeuft());
    assert!(matches!(klick(&k), Klick::Starten(ref a) if a == "app"));
    let k = kachel(Vec::new(), false, false);
    assert!(matches!(klick(&k), Klick::Nichts));
}

#[test]
fn anfangsbuchstabe() {
    assert_eq!(initial("org.mozilla.firefox"), "F");
    assert_eq!(initial("foot"), "F");
    assert_eq!(initial("org.example."), "?");
    assert_eq!(initial(""), "?");
    assert_eq!(initial("a.ßb"), "SS");
}

#[test]
fn widgets_und_pins_lesen() {
    assert_eq!(widgets_aus(None), vec![Widget::Apps]);
    assert_eq!(
        widgets_aus(Some("uhr quatsch zwischenablage aufnahme zentrale")),
        vec![Widget::Uhr, Widget::Zwischenablage, Widget::Aufnahme, Widget::Zentrale]
    );
    assert_eq!(Widget::aus("apps"), Some(Widget::Apps));
    assert_eq!(Widget::aus("Apps"), None);
    assert_eq!(pins_aus(None), vec!["matrix-einstellungen"]);
    assert_eq!(pins_aus(Some(" a  b\n")), vec!["a", "b"]);
}

#[test]
fn zwischenablage_verlauf() {
    let v: Vec<String> = (1..=8).map(|i| format!("t{i}")).collect();
    let (neu, geaendert) = zw_verlauf(v.clone(), "t3", true);
    assert!(geaendert);
    assert_eq!(neu, vec!["t3", "t1", "t2", "t4", "t5", "t6", "t7", "t8"]);
    let (neu, _) = zw_verlauf(v.clone(), "neu", true);
    assert_eq!(neu.len(), 8);
    assert_eq!(neu[0], "neu");
    assert_eq!(neu[7], "t7");
    assert_eq!(zw_verlauf(v.clone(), "  \n", true), (v.clone(), false));
    assert_eq!(zw_verlauf(v.clone(), "x", false), (v.clone(), false));
    let lang = "x".repeat(10_001);
    assert_eq!(zw_verlauf(Vec::new(), &lang, true), (Vec::new(), false));
    let genau = "x".repeat(10_000);
    assert_eq!(zw_verlauf(Vec::new(), &genau, true).0, vec![genau.clone()]);
}

#[test]
fn pins_umschalten_und_huepfen() {
    let pins = vec!["a".to_string(), "b".to_string(), "a".to_string()];
    assert_eq!(pins_wechseln(pins.clone(), "a", true), "b");
    assert_eq!(pins_wechseln(pins.clone(), "c", false), "a b a c");
    assert_eq!(pins_wechseln(Vec::new(), "c", true), "");
    let k = vec![Kachel { app_id: "x".to_string(), fenster: vec![f(1, "x", false)], gepinnt: true, fokus: false, abzeichen: None }];
    assert!(huepfer_behalten(3, "y", &k));
    assert!(!huepfer_behalten(3, "x", &k));
    assert!(!huepfer_behalten(8, "y", &k));
}
