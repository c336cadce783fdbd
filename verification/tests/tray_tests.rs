use matrixkit::tray::{argb_zu_rgba, eintrag_name, eintrag_teilen, icon_aus, Anmeldungen, TrayBefehl, TrayItem};

#[test]
fn eintraege_benennen_und_teilen() {
    assert_eq!(eintrag_name("/org/ayatana/x", Some(":1.42")), ":1.42/org/ayatana/x");
    assert_eq!(eintrag_name("/pfad", None), "/pfad");
    assert_eq!(eintrag_name(":1.7", None), ":1.7/StatusNotifierItem");
    assert_eq!(eintrag_name("org.app", Some(":1.9")), "org.app/StatusNotifierItem");
    assert_eq!(eintrag_teilen(":1.42/org/x"), (":1.42".to_string(), "/org/x".to_string()));
    assert_eq!(eintrag_teilen("org.app"), ("org.app".to_string(), "/StatusNotifierItem".to_string()));
}

#[test]
fn anmeldung_nur_einmal() {
    let mut a = Anmeldungen::neu();
    a.registrieren("org.a", None);
    a.registrieren("org.b", None);
    a.registrieren("org.a", Some(":1.1"));
    assert_eq!(a.items, vec!["org.a/StatusNotifierItem", "org.b/StatusNotifierItem"]);
}

#[test]
fn icon_groesstes_und_rgba() {
    assert_eq!(argb_zu_rgba(&vec![1, 2, 3, 4, 5, 6, 7, 8, 9]), vec![2, 3, 4, 1, 6, 7, 8, 5]);
    let klein = (1, 1, vec![10, 20, 30, 40]);
    let gross = (2, 1, vec![1, 2, 3, 4, 5, 6, 7, 8]);
    let auch_gross = (2, 1, vec![9, 9, 9]);
    assert_eq!(icon_aus(vec![klein.clone(), gross.clone()]), Some((2, 1, vec![2, 3, 4, 1, 6, 7, 8, 5])));
    assert_eq!(icon_aus(vec![gross, auch_gross]), None);
    assert_eq!(icon_aus(vec![]), None);
    assert_eq!(icon_aus(vec![(0, 4, vec![])]), None);
    let item = TrayItem { dienst: "d".into(), pfad: "/p".into(), titel: String::new(), icon: icon_aus(vec![klein]) };
    assert_eq!(item.icon, Some((1, 1, vec![20, 30, 40, 10])));
    let b = TrayBefehl::Aktivieren(item.dienst.clone(), item.pfad.clone());
    assert!(matches!(b, TrayBefehl::Aktivieren(ref d, _) if d == "d"));
}
