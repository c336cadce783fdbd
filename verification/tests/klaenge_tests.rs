use matrixkit::klaenge::{
    arbeitsflaeche_klang, ereignisse, erlaubt, fusstext, geraete_lesen, lautstaerke_klang,
    mitteilung_klang, pegel, standard_setzen, stick_klang, usb_klang, wav_kopf, Einstellungen,
    Entpreller,
};

#[test]
fn einstellungen_schalten_und_lesen() {
    let mut e = Einstellungen::laden(Some("# Kopf\n09-screenshot = aus\n05-lautstaerke=an\nkaputt\n"));
    assert_eq!(e.aus, vec!["09-screenshot"]);
    assert!(!e.an("09-screenshot"));
    assert!(e.an("05-lautstaerke"));
    let text = e.setzen("01-anmeldung", false);
    assert_eq!(
        text,
        "# Matrix-Systemklänge — verwaltet von der App „Matrix Klänge“\n09-screenshot=aus\n01-anmeldung=aus\n"
    );
    assert!(!e.an("01-anmeldung"));
    e.setzen("09-screenshot", true);
    assert!(e.an("09-screenshot"));
    let wieder = Einstellungen::laden(Some(&e.datei_text()));
    assert_eq!(wieder.aus, e.aus);
    assert!(Einstellungen::laden(None).an("egal"));
}

#[test]
fn hooks_lesen_die_schalter() {
    let mut e = Einstellungen::laden(None);
    let t = e.setzen("06-geraet-verbunden", false);
    assert!(!erlaubt(Some(&t), "06-geraet-verbunden"));
    assert!(erlaubt(Some(&t), "07-geraet-getrennt"));
    let t = e.setzen("alle", false);
    assert!(!erlaubt(Some(&t), "07-geraet-getrennt"));
    assert!(erlaubt(None, "07-geraet-getrennt"));
    assert!(!erlaubt(Some(" alle = aus "), "x"));
}

#[test]
fn ereignis_zeilen() {
    assert_eq!(ereignisse().len(), 14);
    assert_eq!(ereignisse()[12].0, "13-schluessel-erkannt");
    assert_eq!(usb_klang("KERNEL[1.2] add /devices/x (usb)"), Some("06-geraet-verbunden"));
    assert_eq!(usb_klang("UDEV [1.2] remove /devices/x (usb)"), Some("07-geraet-getrennt"));
    assert_eq!(usb_klang("UDEV [1.2] add /devices/x (block)"), None);
    let n = r#"{"member":"Notify","interface":"org.freedesktop.Notifications","payload":"Screenshot"}"#;
    assert_eq!(mitteilung_klang(n), Some("09-screenshot"));
    let n = r#"{"member":"Notify","interface":"org.freedesktop.Notifications"}"#;
    assert_eq!(mitteilung_klang(n), Some("03-benachrichtigung"));
    assert_eq!(mitteilung_klang("anderes"), None);
    let mut erster = true;
    assert_eq!(arbeitsflaeche_klang(r#"{"WorkspaceActivated":1}"#, &mut erster), None);
    assert_eq!(arbeitsflaeche_klang(r#"{"WorkspaceActivated":2}"#, &mut erster), Some("08-arbeitsflaeche"));
    let mut z = None;
    assert!(!lautstaerke_klang(&mut z, Some("Volume: 0.5".into())));
    assert!(!lautstaerke_klang(&mut z, None));
    assert!(lautstaerke_klang(&mut z, Some("Volume: 0.6".into())));
    let mut stick = false;
    assert_eq!(stick_klang("06-geraet-verbunden", &mut stick, true), "13-schluessel-erkannt");
    assert_eq!(stick_klang("06-geraet-verbunden", &mut stick, true), "06-geraet-verbunden");
    assert_eq!(stick_klang("07-geraet-getrennt", &mut stick, false), "07-geraet-getrennt");
    assert!(!stick);
}

#[test]
fn entpreller_sperrt() {
    let mut e = Entpreller::neu();
    assert!(e.darf("05-lautstaerke", 1000));
    assert!(!e.darf("05-lautstaerke", 1100));
    assert!(e.darf("05-lautstaerke", 1200));
    assert!(e.darf("13-schluessel-erkannt", 1200));
    assert!(!e.darf("13-schluessel-erkannt", 4100));
    assert!(e.darf("13-schluessel-erkannt", 4200));
    assert!(e.darf("03-benachrichtigung", 0));
    assert!(!e.darf("03-benachrichtigung", 399));
}

#[test]
fn wpctl_status_lesen() {
    let t = "PipeWire 'pipewire-0' [1.0.0]\n\
             Audio\n \
             ├─ Devices:\n \
             │      42. Eingebaut                          [alsa]\n \
             ├─ Sinks:\n \
             │  *   64. Lautsprecher Analog                 [vol: 0.70]\n \
             │      65. HDMI                                [vol: 1.00]\n \
             ├─ Sources:\n \
             │  *   70. Mikrofon                            [vol: 0.40]\n \
             ├─ Filters:\n \
             │      80. Filter\n \
             └─ Streams:\n\
             Video\n \
             ├─ Sources:\n \
             │      90. Kamera\n";
    let (s, q) = geraete_lesen(t);
    let sn: Vec<(u32, &str, bool)> = s.iter().map(|g| (g.id, g.name.as_str(), g.standard)).collect();
    assert_eq!(sn, vec![(64, "Lautsprecher Analog", true), (65, "HDMI", false)]);
    let qn: Vec<(u32, &str, bool)> = q.iter().map(|g| (g.id, g.name.as_str(), g.standard)).collect();
    assert_eq!(qn, vec![(70, "Mikrofon", true)]);
    let mut s = s;
    standard_setzen(&mut s, 65);
    assert!(!s[0].standard && s[1].standard);
}

#[test]
fn pegel_und_wav() {
    assert_eq!(pegel(&vec![0, 0, 0xff, 0x7f]), 100);
    assert_eq!(pegel(&vec![0x00, 0x80]), 100);
    assert_eq!(pegel(&vec![0x00, 0x40, 7]), 50);
    assert_eq!(pegel(&vec![]), 0);
    let k = wav_kopf(44100, 2, 88200);
    assert_eq!(&k[0..4], b"RIFF");
    assert_eq!(&k[4..8], &(36u32 + 88200).to_le_bytes());
    assert_eq!(&k[8..16], b"WAVEfmt ");
    assert_eq!(&k[22..24], &2u16.to_le_bytes());
    assert_eq!(&k[28..32], &(44100u32 * 4).to_le_bytes());
    assert_eq!(&k[36..40], b"data");
    assert_eq!(k.len(), 44);
    assert_eq!(fusstext(Some("Fehler")), "▶ Fehler …");
    assert_eq!(fusstext(None), "▶ spielt eine Hörprobe");
}

#[test]
fn ereignissturm_spielt_im_abstand_der_sperre() {
    let mut e = Entpreller::neu();
    let mut gespielt = Vec::new();
    for t in (0..=3000u64).step_by(100) {
        if e.darf("06-geraet-verbunden", t) {
            gespielt.push(t);
        }
    }
    assert_eq!(gespielt, vec![0, 1200, 2400]);
}
