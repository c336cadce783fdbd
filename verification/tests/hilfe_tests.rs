use matrixkit::hilfe::{treffer, zustand_lesen, zustand_text, Hilfe, Msg};
use matrixkit::inhalte::{kategorien, Artikel, Kategorie};

#[test]
fn wissensbasis_und_suche() {
    let k = kategorien();
    assert_eq!(k.len(), 5);
    assert_eq!(k[0].name, "Erste Schritte");
    assert_eq!(k[0].artikel[0].titel, "Was ist MatrixKit?");
    let t = treffer(&k, "ROOT-EBENE");
    assert!(t.contains(&(1, 1)));
    assert!(treffer(&k, "gibt es sicher nirgends xyzzy").is_empty());
}

#[test]
fn treffer_in_reihenfolge() {
    let kats = vec![
        Kategorie { name: "A", artikel: vec![Artikel { titel: "Eins", teaser: "", inhalt: "Apfel" }] },
        Kategorie {
            name: "B",
            artikel: vec![
                Artikel { titel: "Zwei", teaser: "apfelbaum", inhalt: "" },
                Artikel { titel: "Drei", teaser: "", inhalt: "Birne" },
            ],
        },
    ];
    assert_eq!(treffer(&kats, "apfel"), vec![(0, 0), (1, 0)]);
    assert_eq!(treffer(&kats, ""), vec![(0, 0), (1, 0), (1, 1)]);
}

#[test]
fn navigation_zurueck_und_vor() {
    let mut h = Hilfe::neu(5, (0, None), String::new());
    assert_eq!(h.update(Msg::Kategorie(2)), Some("2".to_string()));
    assert_eq!(h.update(Msg::Artikel(1)), Some("2,1".to_string()));
    assert_eq!((h.kategorie, h.artikel), (2, Some(1)));
    h.update(Msg::VerlaufZurueck);
    assert_eq!((h.kategorie, h.artikel), (2, None));
    h.update(Msg::VerlaufZurueck);
    assert_eq!((h.kategorie, h.artikel), (0, None));
    h.update(Msg::VerlaufVor);
    assert_eq!((h.kategorie, h.artikel), (2, None));
    h.update(Msg::Kategorie(99));
    assert_eq!(h.kategorie, 4);
    h.update(Msg::VerlaufVor);
    assert_eq!(h.kategorie, 4);
}

#[test]
fn tasten_und_suche() {
    let mut h = Hilfe::neu(5, (1, Some(0)), "farbe".to_string());
    assert_eq!(h.update(Msg::Escape), None);
    assert_eq!(h.suche, "");
    assert_eq!(h.artikel, Some(0));
    assert_eq!(h.update(Msg::Escape), Some("1".to_string()));
    assert_eq!(h.artikel, None);
    h.update(Msg::Aktivieren(3));
    assert_eq!((h.kategorie, h.artikel), (3, None));
    h.update(Msg::Aktivieren(7));
    assert_eq!((h.kategorie, h.artikel), (3, Some(2)));
    h.update(Msg::Suche("x".into()));
    h.update(Msg::Treffer(0, 1));
    assert_eq!((h.kategorie, h.artikel), (0, Some(1)));
    assert_eq!(h.suche, "");
}

#[test]
fn zustand_gemerkt_und_geklemmt() {
    let anzahlen = vec![3, 3, 4, 3, 2];
    assert_eq!(zustand_text((2, Some(1))), "2,1");
    assert_eq!(zustand_text((4, None)), "4");
    assert_eq!(zustand_lesen(Some("2,1"), &anzahlen), (2, Some(1)));
    assert_eq!(zustand_lesen(Some("9,1"), &anzahlen), (0, Some(1)));
    assert_eq!(zustand_lesen(Some("4,2"), &anzahlen), (4, None));
    assert_eq!(zustand_lesen(Some("x"), &anzahlen), (0, None));
    assert_eq!(zustand_lesen(None, &anzahlen), (0, None));
}
