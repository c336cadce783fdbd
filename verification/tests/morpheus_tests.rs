use matrixkit::morpheus::{basis, disks_aus, hash_aus, Assistent, Disk, Ereignis, Konto, Modus, Schritt};

#[test]
fn basis_platte_stripped_partitionen() {
    assert_eq!(basis("/dev/sda2"), "sda");
    assert_eq!(basis("/dev/sda"), "sda");
    assert_eq!(basis("/dev/nvme0n1p3"), "nvme0n1");
    assert_eq!(basis("/dev/mmcblk0p1"), "mmcblk0");
    assert_eq!(basis("nvme0n1"), "nvme0n1");
}

#[test]
fn basis_ohne_partition_bleibt() {
    assert_eq!(basis("/dev/nvme0n1"), "nvme0n1");
    assert_eq!(basis("/dev/mmcblk0"), "mmcblk0");
    assert_eq!(basis("vda12"), "vda");
    assert_eq!(basis("/dev/loop3"), "loop3");
}

fn platte(kurz: &str, live: bool) -> Disk {
    Disk {
        dev: format!("/dev/{kurz}"),
        kurz: kurz.to_string(),
        groesse: 512_000_000_000,
        modell: "M".to_string(),
        entfernbar: false,
        live,
    }
}

#[test]
fn lsblk_zeilen_werden_gefiltert() {
    let text = "sda 512110190592 disk 0 Samsung SSD 860\n\
                zram0 8000000000 disk 0\n\
                sdb 32000000000 disk 1\n\
                sr0 1073741312 rom 1 DVD\n\
                sdc 500000 disk 1 Klein\n\
                kaputt\n";
    let live = vec!["sdb".to_string()];
    let d = disks_aus(text, &live);
    assert_eq!(d.len(), 2);
    assert_eq!(d[0].dev, "/dev/sda");
    assert_eq!(d[0].kurz, "sda");
    assert_eq!(d[0].groesse, 512110190592);
    assert_eq!(d[0].modell, "Samsung SSD 860");
    assert!(!d[0].entfernbar);
    assert!(!d[0].live);
    assert_eq!(d[1].kurz, "sdb");
    assert_eq!(d[1].modell, "Datenträger");
    assert!(d[1].entfernbar);
    assert!(d[1].live);
}

#[test]
fn konto_pruefungen() {
    let mut k = Konto {
        rechner: " matrix ".to_string(),
        nutzer: "neo".to_string(),
        pw: "geheim".to_string(),
        pw2: "geheim".to_string(),
    };
    assert!(k.ok());
    k.rechner = "-x".to_string();
    assert!(!k.rechner_ok());
    k.rechner = "ä".to_string();
    assert!(!k.rechner_ok());
    k.rechner = "a".repeat(64);
    assert!(!k.rechner_ok());
    k.nutzer = "Neo".to_string();
    assert!(!k.nutzer_ok());
    k.nutzer = "n3o-x".to_string();
    assert!(k.nutzer_ok());
    k.pw2 = "anders".to_string();
    assert!(!k.pw_ok());
    k.pw = "abc".to_string();
    k.pw2 = "abc".to_string();
    assert!(!k.pw_ok());
    assert_eq!(k.uebergabe("$6$h"), format!("{}
n3o-x
$6$h
", "a".repeat(64)));
}

#[test]
fn hash_wird_erkannt() {
    assert_eq!(hash_aus(" $6$salz$abc\n"), Some("$6$salz$abc".to_string()));
    assert_eq!(hash_aus("Fehler"), None);
}

#[test]
fn installieren_nur_nach_abtippen() {
    let mut a = Assistent::neu(vec![platte("sdb", true), platte("sda", false)], false, false);
    assert_eq!(a.schritt, Schritt::Willkommen);
    assert!(a.wahl.is_none());
    assert!(a.update(Ereignis::Weiter(vec![platte("sdb", true), platte("sda", false)])).is_none());
    assert_eq!(a.schritt, Schritt::Ziel);
    a.update(Ereignis::DiskWahl(0));
    assert!(a.wahl.is_none());
    a.update(Ereignis::Weiter(Vec::new()));
    assert_eq!(a.schritt, Schritt::Ziel);
    a.update(Ereignis::DiskWahl(1));
    assert_eq!(a.wahl, Some(1));
    a.update(Ereignis::Weiter(Vec::new()));
    assert_eq!(a.schritt, Schritt::Konto);
    a.update(Ereignis::Weiter(Vec::new()));
    assert_eq!(a.schritt, Schritt::Konto);
    a.update(Ereignis::KontoNutzer("neo".to_string()));
    a.update(Ereignis::KontoPw("geheim".to_string()));
    a.update(Ereignis::KontoPw2("geheim".to_string()));
    a.update(Ereignis::TippInput("alt".to_string()));
    a.update(Ereignis::Weiter(Vec::new()));
    assert_eq!(a.schritt, Schritt::Bestaetigen);
    assert_eq!(a.tipp, "");
    a.update(Ereignis::TippInput("sdb".to_string()));
    assert!(a.update(Ereignis::Installieren).is_none());
    assert_eq!(a.schritt, Schritt::Bestaetigen);
    a.update(Ereignis::TippInput(" sda ".to_string()));
    let auftrag = a.update(Ereignis::Installieren).expect("Auftrag");
    assert_eq!(auftrag.dev, "/dev/sda");
    assert_eq!(auftrag.konto.nutzer, "neo");
    assert!(!auftrag.medium);
    assert!(!auftrag.demo);
    assert_eq!(a.schritt, Schritt::Laeuft);
    assert_eq!(a.log, "");
    a.update(Ereignis::Tick { fertig: false, fehler: false, log: "Partitionen\n".to_string() });
    assert_eq!(a.schritt, Schritt::Laeuft);
    assert_eq!(a.log, "Partitionen\n");
    a.update(Ereignis::Tick { fertig: true, fehler: true, log: "Partitionen\nfertig\n".to_string() });
    assert_eq!(a.schritt, Schritt::Fertig);
    assert_eq!(a.log, "Partitionen\nfertig\n");
    a.update(Ereignis::Tick { fertig: false, fehler: false, log: "später".to_string() });
    assert_eq!(a.log, "Partitionen\nfertig\n");
}

#[test]
fn medium_ueberspringt_konto_und_zurueck() {
    let mut a = Assistent::neu(Vec::new(), false, true);
    a.update(Ereignis::ModusWeiter(Modus::Medium, vec![platte("sdc", false)]));
    assert_eq!(a.schritt, Schritt::Ziel);
    a.update(Ereignis::DiskWahl(0));
    a.update(Ereignis::Weiter(Vec::new()));
    assert_eq!(a.schritt, Schritt::Bestaetigen);
    a.update(Ereignis::Zurueck);
    assert_eq!(a.schritt, Schritt::Ziel);
    a.update(Ereignis::Zurueck);
    assert_eq!(a.schritt, Schritt::Willkommen);
    a.update(Ereignis::NeuLesen(vec![platte("sdc", true)]));
    assert!(a.wahl.is_none());
}

#[test]
fn vorfuehrmodus_im_auftrag_und_protokoll_geleert() {
    let mut a = Assistent::neu(Vec::new(), false, true);
    assert!(a.demo);
    a.update(Ereignis::ModusWeiter(Modus::Medium, vec![platte("sdc", false)]));
    a.update(Ereignis::DiskWahl(0));
    a.update(Ereignis::Weiter(Vec::new()));
    a.update(Ereignis::TippInput("sdc".to_string()));
    let auftrag = a.update(Ereignis::Installieren).expect("Auftrag");
    assert!(auftrag.demo);
    assert!(auftrag.medium);
    assert_eq!(auftrag.dev, "/dev/sdc");
    assert_eq!(a.log, "");
}

#[test]
fn konto_zuerst_startet_im_konto() {
    let a = Assistent::neu(Vec::new(), true, false);
    assert_eq!(a.schritt, Schritt::Konto);
    assert_eq!(a.konto.rechner, "matrix");
}

#[test]
fn vorfuehrmodus_protokoll() {
    let k = matrixkit::morpheus::Konto {
        rechner: "matrix".to_string(),
        nutzer: "anna".to_string(),
        pw: String::new(),
        pw2: String::new(),
    };
    let z = matrixkit::morpheus::demo_protokoll("/dev/sdc", &k, false);
    assert_eq!(z.len(), 8);
    assert_eq!(z[0], "Vorführmodus: es wird keine Platte berührt.");
    assert_eq!(z[1], "Ziel: /dev/sdc");
    assert_eq!(z[6], "Konto anna auf \u{201e}matrix\u{201c} anlegen …");
    assert_eq!(z[7], "Fertig.");
    let m = matrixkit::morpheus::demo_protokoll("/dev/sdc", &k, true);
    assert_eq!(m[6], "Installations-Medium markieren …");
}

#[test]
fn basis_der_basis_bleibt() {
    for geraet in ["/dev/sda2", "sda", "/dev/nvme0n1p3", "mmcblk0p1", "loop7", "md127p1", "/dev/vdb15"] {
        let b = basis(geraet);
        assert_eq!(basis(&b), b);
    }
    assert_eq!(basis("nvme0n1p2p3"), "nvme0n1p2");
    assert_eq!(basis("nvme0n1p2"), "nvme0n1");
}

#[test]
fn teile_fuehren_zur_platte_zurueck() {
    for (platte, teil) in [("sdb", "/dev/sdb3"), ("xvdb", "/dev/xvdb12"), ("nvme1n1", "/dev/nvme1n1p7"), ("mmcblk2", "/dev/mmcblk2p1"), ("md127", "/dev/md127p2"), ("loop7", "/dev/loop7p1")] {
        assert_eq!(basis(teil), platte);
        assert_eq!(basis(platte), platte);
        assert_eq!(basis(&format!("/dev/{platte}")), platte);
    }
}
