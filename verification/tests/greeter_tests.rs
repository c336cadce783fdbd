use matrixkit::greeter::{
    demo_ergebnis, gewaehlte_sitzung, nutzer_finden, sitzung_aus, sitzungen, Aktion, Anfrage,
    Antwort, Bildschirm, Ereignis, Lage, Login, Phase, Schritt,
};

#[test]
fn erster_echter_nutzer() {
    let passwd = "root:x:0:0:root:/root:/bin/bash\n\
                  nobody:x:65534:65534:Nobody:/:/usr/sbin/nologin\n\
                  wache:x:1500:1500::/home/wache:/bin/sh\n\
                  dienst:x:1001:1001::/:/usr/sbin/nologin\n\
                  neo:x:1000:1000: thomas anderson ,,,:/home/neo:/bin/bash\n\
                  trin:x:1002:1002::/home/trin:/bin/bash\n";
    assert_eq!(nutzer_finden(Some(passwd)), ("neo".to_string(), "Thomas anderson".to_string()));
    assert_eq!(
        nutzer_finden(Some("trin:x:1002:1002::/home/trin:/bin/bash")),
        ("trin".to_string(), "Trin".to_string())
    );
    assert_eq!(nutzer_finden(None), ("nicolas".to_string(), "Nutzer".to_string()));
    assert_eq!(nutzer_finden(Some("kurz:x:1000")), ("nicolas".to_string(), "Nutzer".to_string()));
}

#[test]
fn sitzungsdateien() {
    let a = "[Desktop Entry]\nName= Niri \nExec=niri-session\nName=Zweiter\n";
    assert_eq!(sitzung_aus(a), Some(("Niri".to_string(), "niri-session".to_string())));
    assert_eq!(sitzung_aus("Name=Ohne"), None);
    let d = vec![
        a.to_string(),
        "Name=Niri\nExec=anders".to_string(),
        "Name=Sway\nExec=sway".to_string(),
        "kaputt".to_string(),
    ];
    let s = sitzungen(&d);
    assert_eq!(s, vec![("Niri".to_string(), "niri-session".to_string()), ("Sway".to_string(), "sway".to_string())]);
    assert_eq!(sitzungen(&vec![]), vec![("Niri".to_string(), "niri-session".to_string())]);
    assert_eq!(gewaehlte_sitzung(&s, Some("Sway")), 1);
    assert_eq!(gewaehlte_sitzung(&s, Some("KDE")), 0);
    assert_eq!(gewaehlte_sitzung(&s, None), 0);
}

#[test]
fn greetd_gespraech() {
    let (mut l, a) = Login::neu("neo", "geheim".into(), "niri-session".into());
    assert!(matches!(a, Anfrage::CreateSession { ref username } if username == "neo"));
    let s = l.antwort(Antwort::AuthMessage { auth_message_type: "visible".into(), auth_message: "Login:".into() });
    assert!(matches!(s, Schritt::Senden(Anfrage::PostAuthMessageResponse { response: None })));
    let s = l.antwort(Antwort::AuthMessage { auth_message_type: "secret".into(), auth_message: "Password:".into() });
    assert!(matches!(s, Schritt::Senden(Anfrage::PostAuthMessageResponse { response: Some(ref p) }) if p == "geheim"));
    let s = l.antwort(Antwort::Success);
    match s {
        Schritt::Senden(Anfrage::StartSession { cmd }) => assert_eq!(cmd, vec!["sh", "-c", "niri-session"]),
        _ => panic!("StartSession erwartet"),
    }
    assert_eq!(l.phase, Phase::Starten);
    assert!(matches!(l.antwort(Antwort::Success), Schritt::Ende(Ok(()))));
    assert_eq!(l.phase, Phase::Fertig);
}

#[test]
fn greetd_ablehnung() {
    let (mut l, _) = Login::neu("neo", "falsch".into(), "x".into());
    let s = l.antwort(Antwort::Error { error_type: "auth_error".into(), description: String::new() });
    assert!(matches!(s, Schritt::Abbrechen(ref t) if t == "Anmeldung abgelehnt"));
    let (mut l, _) = Login::neu("neo", "x".into(), "x".into());
    l.antwort(Antwort::Success);
    let s = l.antwort(Antwort::AuthMessage { auth_message_type: "info".into(), auth_message: String::new() });
    assert!(matches!(s, Schritt::Ende(Err(ref t)) if t == "greetd: unerwartete Antwort auf start_session"));
}

#[test]
fn bildschirm_ablauf() {
    let s = vec![("Niri".to_string(), "niri-session".to_string()), ("Sway".to_string(), "sway".to_string())];
    let mut b = Bildschirm::neu("neo".into(), s, 0, false);
    b.update(Ereignis::Passwort("pw".into()));
    assert!(matches!(b.update(Ereignis::Sitzung(1)), Aktion::Merken(ref n) if n == "Sway"));
    assert!(matches!(b.update(Ereignis::Sitzung(5)), Aktion::Keine));
    let a = b.update(Ereignis::Anmelden);
    assert!(matches!(a, Aktion::Einloggen(ref n, ref p, ref c) if n == "neo" && p == "pw" && c == "sway"));
    assert_eq!(b.lage, Lage::Prueft);
    assert!(matches!(b.update(Ereignis::Anmelden), Aktion::Keine));
    b.update(Ereignis::Passwort("anders".into()));
    assert_eq!(b.passwort, "pw");
    assert!(matches!(b.update(Ereignis::Ergebnis(Err("nein".into()))), Aktion::Fehler));
    assert_eq!(b.passwort, "");
    assert_eq!(b.fehler.as_deref(), Some("nein"));
    assert!(matches!(b.update(Ereignis::StickPuls(true)), Aktion::StickKlang));
    assert!(matches!(b.update(Ereignis::StickPuls(true)), Aktion::Keine));
    assert!(matches!(b.update(Ereignis::Wiederherstellung), Aktion::Wiederherstellen));
    assert!(matches!(b.update(Ereignis::Ergebnis(Ok(()))), Aktion::Beenden));
    assert_eq!(b.lage, Lage::Erfolg);
    assert_eq!(demo_ergebnis("demo"), Ok(()));
    assert_eq!(demo_ergebnis("x"), Err("Demo: Passwort ist „demo“".to_string()));
}
