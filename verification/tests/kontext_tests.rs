use matrixkit::kontext::{eintrag_start, eintrag_titel, fenster_ids, pins_lesen};

#[test]
fn menue_eintraege_starten() {
    assert_eq!(eintrag_start(0), ("matrix-start".to_string(), None));
    assert_eq!(eintrag_start(1), ("matrix-web".to_string(), None));
    assert_eq!(
        eintrag_start(2),
        ("matrix-einstellungen".to_string(), Some("hintergrund".to_string()))
    );
    assert_eq!(eintrag_start(3), ("matrix-einstellungen".to_string(), None));
    assert_eq!(eintrag_titel(2), "Hintergrund ändern …");
}

#[test]
fn fenster_ids_vom_dock() {
    assert_eq!(fenster_ids("12,x,7"), vec![12, 7]);
    assert_eq!(fenster_ids("-"), Vec::<u64>::new());
    assert_eq!(fenster_ids("5"), vec![5]);
    assert_eq!(fenster_ids(",,3,"), vec![3]);
}

#[test]
fn pins_ohne_vorgabe() {
    assert!(pins_lesen(None).is_empty());
    assert_eq!(pins_lesen(Some("a b")), vec!["a", "b"]);
}
