use matrixkit::bar::{
    akku_eintrag, app_wunsch, film_start, fokus_text, gross, netz_name, nutzer_anzeige, zonen_parse,
    Aktion, Folge, Menue, MenueMsg, Widget,
};

#[test]
fn zonen_parse_standard() {
    let (l, m, r) = zonen_parse("matrix fokus | uhr | akku puls tray glocke zentrale nutzer");
    assert_eq!(l, vec![Widget::Matrix, Widget::Fokus]);
    assert_eq!(m, vec![Widget::Uhr]);
    assert_eq!(
        r,
        vec![
            Widget::Akku,
            Widget::Puls,
            Widget::Tray,
            Widget::Glocke,
            Widget::Zentrale,
            Widget::Nutzer
        ]
    );
}

#[test]
fn zonen_parse_robust() {
    let (l, m, r) = zonen_parse("quatsch fokus");
    assert_eq!(l, vec![Widget::Fokus]);
    assert!(m.is_empty() && r.is_empty());
    let (l, _, _) = zonen_parse("");
    assert!(l.is_empty());
}

#[test]
fn gross_kapitalisiert() {
    assert_eq!(gross("nicolas"), "Nutzer");
    assert_eq!(gross(""), "");
}

#[test]
fn gross_erster_buchstabe() {
    assert_eq!(gross("anna"), "Anna");
    assert_eq!(gross("ärger"), "Ärger");
}

#[test]
fn nutzer_aus_passwd() {
    let passwd = "root:x:0:0:root:/root:/bin/bash\nanna:x:1000:1000:anna berg,,,:/home/anna:/bin/sh\nbob:x:1001:1001::/home/bob:/bin/sh\n";
    assert_eq!(nutzer_anzeige("anna", Some(passwd)), "Anna berg");
    assert_eq!(nutzer_anzeige("bob", Some(passwd)), "Bob");
    assert_eq!(nutzer_anzeige("carl", None), "Carl");
}

#[test]
fn fokus_titel() {
    assert_eq!(fokus_text("org.mozilla.firefox", "Startseite"), "Firefox — Startseite");
    assert_eq!(fokus_text("matrix-dateien", "Matrix Dateien"), "Matrix Dateien");
    assert_eq!(fokus_text("a", ""), "A");
    let lang = "x".repeat(80);
    let t = fokus_text("app", &lang);
    assert_eq!(t.chars().count(), 64);
    assert!(t.ends_with('…'));
}

#[test]
fn akku_und_netz() {
    assert_eq!(akku_eintrag("87\n", Some("Charging\n")), Some((87, true)));
    assert_eq!(akku_eintrag("120", None), Some((100, false)));
    assert_eq!(akku_eintrag("x", Some("Charging")), None);
    assert_eq!(netz_name("lo:loopback\nHeim:802-11-wireless\n"), Some("Heim".to_string()));
    assert_eq!(netz_name("lo:loopback\n"), None);
    assert_eq!(film_start("a\nb\n1700000000\n"), Some(1_700_000_000));
    assert_eq!(film_start("a\nb\n"), None);
    assert_eq!(app_wunsch("matrix-einstellungen leinwand"), ("matrix-einstellungen".to_string(), Some("leinwand".to_string())));
    assert_eq!(app_wunsch("matrix-codes"), ("matrix-codes".to_string(), None));
}

#[test]
fn zweiter_klick_bestaetigt() {
    let mut m = Menue::neu();
    assert_eq!(m.klick(MenueMsg::MenueAuf), Folge::Oeffnen);
    assert_eq!(m.klick(MenueMsg::Aktion(Aktion::Neustart)), Folge::Nichts);
    assert_eq!(m.bestaetigung, Some(Aktion::Neustart));
    assert_eq!(m.klick(MenueMsg::Aktion(Aktion::Neustart)), Folge::Ausfuehren(Aktion::Neustart));
    assert!(!m.menue_offen);
    assert_eq!(m.klick(MenueMsg::Aktion(Aktion::Sperren)), Folge::Ausfuehren(Aktion::Sperren));
    assert_eq!(m.klick(MenueMsg::Aktion(Aktion::Herunterfahren)), Folge::Nichts);
    assert_eq!(m.klick(MenueMsg::MenueZu), Folge::Schliessen);
    assert_eq!(m.bestaetigung, None);
    assert_eq!(Aktion::Herunterfahren.frage(), "Wirklich ausschalten?");
    assert!(!Aktion::Standby.endgueltig());
}
