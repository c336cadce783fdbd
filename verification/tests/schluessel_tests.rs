use matrixkit::schluessel::{
    status_aus, sticks_aus, sudo_ergebnis, Auftrag, Ereignis, Frage, Schluessel, Status, Stick,
};

fn stick(pfad: &str) -> Stick {
    Stick { pfad: pfad.to_string(), beschr: "USB-Stick".to_string(), groesse: "8G".to_string() }
}

#[test]
fn sticks_nur_usb_wechselbar_ganz() {
    let aus = "/dev/sda disk sata 0 500G Samsung SSD\n\
/dev/sdc disk usb 1 14.9G SanDisk Cruzer\\x20Blade\n\
/dev/sdc1 part usb 1 14.9G\n\
/dev/sdd disk usb 1 0B Generic Card\n\
/dev/sde disk usb 0 1T WD Elements\n\
/dev/sdf disk usb 1 8G\n\
/dev/sdb disk usb 1 8G System\n";
    let v = sticks_aus(aus);
    assert_eq!(v.len(), 2);
    assert_eq!(v[0].pfad, "/dev/sdc");
    assert_eq!(v[0].beschr, "SanDisk Cruzer Blade");
    assert_eq!(v[0].groesse, "14.9G");
    assert_eq!(v[1].pfad, "/dev/sdf");
    assert_eq!(v[1].beschr, "USB-Stick");
}

#[test]
fn sticks_kurze_zeilen_uebersprungen() {
    assert!(sticks_aus("").is_empty());
    assert!(sticks_aus("/dev/sdc disk usb 1\n").is_empty());
    let v = sticks_aus("/dev/sdg disk usb 1 0 X\n/dev/sdh  disk  usb 1 2G  Kingston \\x20 DT \n");
    assert_eq!(v.len(), 1);
    assert_eq!(v[0].beschr, "Kingston DT");
}

#[test]
fn status_zeilen() {
    let s = status_aus("konto=1\npam= 0 \nstick=/dev/sdc\nquatsch\n");
    assert!(s.konto);
    assert!(!s.pam);
    assert!(s.stick_da);
    let s = status_aus("stick=  \nkonto=0\npam=1");
    assert!(!s.stick_da && !s.konto && s.pam);
    let s = status_aus("");
    assert!(!s.konto && !s.pam && !s.stick_da);
}

#[test]
fn sudo_antworten() {
    assert_eq!(sudo_ergebnis(true, "  \n", ""), Ok("Fertig.".to_string()));
    assert_eq!(sudo_ergebnis(true, " eingerichtet\n", "x"), Ok("eingerichtet".to_string()));
    assert_eq!(
        sudo_ergebnis(false, "", "sudo: 1 INCORRECT PASSWORD attempt"),
        Err("Passwort falsch.".to_string())
    );
    assert_eq!(sudo_ergebnis(false, "", "Sorry, try again."), Err("Passwort falsch.".to_string()));
    assert_eq!(sudo_ergebnis(false, "", " kaputt \n"), Err("kaputt".to_string()));
    assert_eq!(sudo_ergebnis(false, "", ""), Err("Aktion fehlgeschlagen.".to_string()));
}

fn fenster() -> Schluessel {
    Schluessel::neu(
        Status { konto: false, pam: false, stick_da: false },
        vec![stick("/dev/sdc")],
        "anna".to_string(),
        false,
    )
}

#[test]
fn einrichten_erst_nach_rueckfrage() {
    let mut s = fenster();
    assert!(matches!(s.update(Ereignis::Fragen(Frage::Einrichten)), Auftrag::Keiner));
    assert_eq!(s.meldung, Some(("Stick wählen und Passwort eingeben.".to_string(), true)));
    assert!(!s.dialog_offen);
    s.update(Ereignis::Waehlen("/dev/sdc".to_string()));
    assert_eq!(s.meldung, None);
    s.update(Ereignis::Passwort("geheim".to_string()));
    assert!(matches!(s.update(Ereignis::Fragen(Frage::Einrichten)), Auftrag::Keiner));
    assert!(s.dialog_offen);
    assert_eq!(s.frage, Some(Frage::Einrichten));
    match s.update(Ereignis::Bestaetigen) {
        Auftrag::Sudo(pw, args) => {
            assert_eq!(pw, "geheim");
            assert_eq!(args, vec![vec!["einrichten", "--device", "/dev/sdc", "--user", "anna"]]);
        }
        _ => panic!("kein Auftrag"),
    }
    assert!(s.laeuft && !s.dialog_offen && s.frage.is_none());
    assert_eq!(s.meldung, Some(("Formatiere und richte ein …".to_string(), false)));
    assert!(matches!(s.update(Ereignis::Tick), Auftrag::Keiner));
    assert!(matches!(s.update(Ereignis::Ergebnis(Ok("Fertig.".to_string()))), Auftrag::Lesen));
    assert!(!s.laeuft);
    assert_eq!(s.passwort, "");
    assert_eq!(s.gewaehlt, None);
    assert_eq!(s.meldung, Some(("Fertig.".to_string(), false)));
}

#[test]
fn entfernen_zwei_schritte() {
    let mut s = fenster();
    assert!(matches!(s.update(Ereignis::Entfernen), Auftrag::Keiner));
    assert_eq!(s.meldung, Some(("Passwort eingeben, um zu entfernen.".to_string(), true)));
    s.update(Ereignis::Passwort("pw".to_string()));
    s.update(Ereignis::Fragen(Frage::Entfernen));
    match s.update(Ereignis::Bestaetigen) {
        Auftrag::Sudo(pw, args) => {
            assert_eq!(pw, "pw");
            assert_eq!(args, vec![vec!["pam-deaktivieren"], vec!["entfernen", "--user", "anna"]]);
        }
        _ => panic!("kein Auftrag"),
    }
    s.update(Ereignis::Ergebnis(Err("Passwort falsch.".to_string())));
    assert_eq!(s.meldung, Some(("Passwort falsch.".to_string(), true)));
}

#[test]
fn abgezogener_stick_verliert_auswahl() {
    let mut s = fenster();
    assert!(matches!(s.update(Ereignis::Tick), Auftrag::Lesen));
    s.update(Ereignis::Waehlen("/dev/sdc".to_string()));
    let st = Status { konto: true, pam: true, stick_da: false };
    s.update(Ereignis::Gelesen(st, vec![stick("/dev/sdc")]));
    assert_eq!(s.gewaehlt, Some("/dev/sdc".to_string()));
    assert!(s.status.konto);
    s.update(Ereignis::Gelesen(st, vec![stick("/dev/sdd")]));
    assert_eq!(s.gewaehlt, None);
    assert_eq!(s.sticks[0].pfad, "/dev/sdd");
}

#[test]
fn dialog_abbrechen_und_escape() {
    let mut s = Schluessel::neu(
        Status { konto: false, pam: false, stick_da: false },
        Vec::new(),
        "anna".to_string(),
        true,
    );
    assert!(s.dialog_offen);
    assert_eq!(s.frage, Some(Frage::Einrichten));
    s.update(Ereignis::Escape);
    assert!(!s.dialog_offen);
    s.update(Ereignis::Passwort("x".to_string()));
    s.update(Ereignis::Fragen(Frage::Entfernen));
    assert!(s.dialog_offen);
    s.update(Ereignis::Abbrechen);
    assert!(!s.dialog_offen);
    assert_eq!(s.frage, Some(Frage::Entfernen));
}
